//! Placement of checkpoint tensors: which expert tensors a rank materializes.

use vstd::prelude::*;
use vstd::string::{StrSliceExecFns, StringExecFns};

use crate::error::{Error, Failure};
use crate::expert_parallel::assignment::{ExpertAssignment, Ownership};
use crate::text::{
    before_first_dot, behind_last_dot, contains_text, find_text, parse_size, replace_first,
    same_text, starts_with, usize_text,
};

verus! {

/// Architecture of a checkpoint.
#[derive(Debug, Clone, Copy, PartialEq, Eq, Structural)]
pub enum ModelKind {
    /// DeepSeek-V3.
    DeepSeekV3,
    /// Qwen3, dense or with experts.
    Qwen3,
    /// GPT-OSS.
    GptOss,
    /// Inkling.
    Inkling,
    /// LFM2, dense or with experts.
    Lfm2,
    /// Nemotron-H.
    NemotronH,
    /// Qwen3-Next.
    Qwen3Next,
    /// Qwen3.5, dense or with experts.
    Qwen35Moe,
    /// Qwen3-VL with experts.
    Qwen3VlMoe,
}

/// Rank-local placement of one checkpoint tensor.
#[derive(Debug, Clone, PartialEq, Eq)]
pub enum TensorPlacement {
    /// The whole tensor belongs to this rank.
    Local,
    /// The tensor is not materialized here.
    Omit,
    /// A contiguous range of the tensor.
    Range {
        /// Sliced axis.
        axis: usize,
        /// First index.
        start: usize,
        /// End of the indices.
        end: usize,
    },
    /// Selected indices of the tensor.
    Indices {
        /// Sliced axis.
        axis: usize,
        /// Indices in order.
        indices: Vec<usize>,
    },
}

/// The mathematical value of a [`TensorPlacement`].
pub enum Placement {
    Local,
    Omit,
    Range(usize, usize, usize),
    Indices(usize, Seq<usize>),
}

impl View for TensorPlacement {
    type V = Placement;

    open spec fn view(&self) -> Placement {
        match *self {
            TensorPlacement::Local => Placement::Local,
            TensorPlacement::Omit => Placement::Omit,
            TensorPlacement::Range { axis, start, end } => Placement::Range(axis, start, end),
            TensorPlacement::Indices { axis, indices } => Placement::Indices(axis, indices@),
        }
    }
}

/// Placement of one named tensor.
#[derive(Debug, Clone, PartialEq, Eq)]
pub struct KeyPlacement {
    /// Checkpoint key.
    pub key: String,
    /// Where it goes.
    pub placement: TensorPlacement,
}

/// The expert that a tensor of split expert weights belongs to.
pub open spec fn split_expert(name: Seq<char>) -> Option<int> {
    match crate::text::first_at(name, ".mlp.experts."@, 0) {
        Some(at) => crate::text::parsed_size(
            crate::text::first_segment(name.skip(at + ".mlp.experts."@.len())),
        ),
        None => None,
    }
}

/// Returns the expert that a tensor of split expert weights belongs to.
pub fn split_expert_id(name: &str) -> (expert: Option<usize>)
    ensures
        match expert {
            Some(id) => split_expert(name@) == Some(id as int),
            None => split_expert(name@) is None,
        },
{
    match find_text(name, ".mlp.experts.") {
        Some(at) => {
            let length: usize = name.unicode_len();
            let marker = ".mlp.experts.";
            let rest = name.substring_char(at + marker.unicode_len(), length);
            assert(rest@ =~= name@.skip(at + ".mlp.experts."@.len()));
            let segment = before_first_dot(rest);
            parse_size(segment.as_str())
        },
        None => None,
    }
}

/// A split expert tensor's name on the rank that owns its expert; other ranks have none.
pub open spec fn localized_name(name: Seq<char>, table: Ownership) -> Option<Seq<char>> {
    match split_expert(name) {
        Some(global) => if global < table.owners.len() && table.owners[global] == table.rank {
            Some(
                crate::text::replaced_first(
                    name,
                    ".mlp.experts."@ + crate::text::decimal(global as nat) + "."@,
                    ".mlp.experts."@ + crate::text::decimal(table.local_id(global) as nat) + "."@,
                ),
            )
        } else {
            None
        },
        None => None,
    }
}

fn expert_marker(expert: usize) -> (marker: String)
    ensures
        marker@ == ".mlp.experts."@ + crate::text::decimal(expert as nat) + "."@,
{
    let mut marker = ".mlp.experts.".to_owned();
    marker.append(usize_text(expert).as_str());
    marker.append(".");
    marker
}

/// Renames a split expert tensor from its global to its owner-local expert.
pub fn localize_split_expert_name(name: &str, assignment: &ExpertAssignment) -> (local: Option<String>)
    ensures
        match local {
            Some(local) => localized_name(name@, assignment@) == Some(local@),
            None => localized_name(name@, assignment@) is None,
        },
{
    let global: usize = match split_expert_id(name) {
        Some(global) => global,
        None => {
            return None;
        },
    };
    match assignment.owner(global) {
        Some(owner) => {
            if owner != assignment.rank() {
                return None;
            }
        },
        None => {
            return None;
        },
    }
    let local: usize = match assignment.owner_local_id(global) {
        Some(local) => local,
        None => {
            return None;
        },
    };
    Some(replace_first(name, expert_marker(global).as_str(), expert_marker(local).as_str()))
}

/// Whether a suffix names a packed bank of expert weights or a companion of one.
pub open spec fn packed_suffix(suffix: Seq<char>) -> bool {
    ||| suffix == "gate_up_proj"@
    ||| suffix == "gate_proj"@
    ||| suffix == "up_proj"@
    ||| suffix == "down_proj"@
    ||| suffix == "gate_proj_scale_inv"@
    ||| suffix == "up_proj_scale_inv"@
    ||| suffix == "down_proj_scale_inv"@
    ||| suffix == "gate_up_proj_scales"@
    ||| suffix == "gate_up_proj_biases"@
    ||| suffix == "gate_proj_scales"@
    ||| suffix == "gate_proj_biases"@
    ||| suffix == "up_proj_scales"@
    ||| suffix == "up_proj_biases"@
    ||| suffix == "down_proj_scales"@
    ||| suffix == "down_proj_biases"@
}

fn is_packed_suffix(suffix: &str) -> (packed: bool)
    ensures
        packed == packed_suffix(suffix@),
{
    same_text(suffix, "gate_up_proj") || same_text(suffix, "gate_proj") || same_text(
        suffix,
        "up_proj",
    ) || same_text(suffix, "down_proj") || same_text(suffix, "gate_proj_scale_inv") || same_text(
        suffix,
        "up_proj_scale_inv",
    ) || same_text(suffix, "down_proj_scale_inv") || same_text(suffix, "gate_up_proj_scales")
        || same_text(suffix, "gate_up_proj_biases") || same_text(suffix, "gate_proj_scales")
        || same_text(suffix, "gate_proj_biases") || same_text(suffix, "up_proj_scales")
        || same_text(suffix, "up_proj_biases") || same_text(suffix, "down_proj_scales")
        || same_text(suffix, "down_proj_biases")
}

/// Whether ids follow one another without a gap.
pub open spec fn consecutive(ids: Seq<usize>) -> bool {
    forall|i: int| 0 <= i < ids.len() - 1 ==> #[trigger] ids[i] + 1 == ids[i + 1]
}

fn is_consecutive(ids: &[usize]) -> (run: bool)
    ensures
        run == consecutive(ids@),
{
    let mut index: usize = 1;
    while index < ids.len()
        invariant
            1 <= index,
            index <= ids@.len() || index == 1,
            forall|i: int| 0 <= i < index - 1 && i < ids@.len() - 1 ==> #[trigger] ids@[i] + 1
                == ids@[i + 1],
        decreases ids@.len() - index,
    {
        if ids[index - 1] == usize::MAX || ids[index - 1] + 1 != ids[index] {
            assert(ids@[index - 1] + 1 != ids@[index as int]);
            return false;
        }
        index = index + 1;
    }
    true
}

/// The slice of a packed expert bank that a rank materializes: the rows of its experts.
pub open spec fn bank_slice(ids: Seq<usize>) -> Placement {
    if consecutive(ids) {
        Placement::Range(0, ids[0], (ids[ids.len() - 1] + 1) as usize)
    } else {
        Placement::Indices(0, ids)
    }
}

/// Returns the slice of a packed expert bank that this rank materializes.
pub fn slice_axis_zero(assignment: &ExpertAssignment) -> (slice: TensorPlacement)
    requires
        assignment@.local_experts().len() > 0,
    ensures
        slice@ == bank_slice(assignment@.local_experts()),
{
    let ids = assignment.local_global_expert_ids();
    let last: usize = ids[ids.len() - 1];
    proof {
        crate::expert_parallel::assignment::assignment_round_trips(
            assignment@,
            0,
            ids@.len() - 1,
        );
    }
    if is_consecutive(ids) {
        TensorPlacement::Range { axis: 0, start: ids[0], end: last + 1 }
    } else {
        let mut indices: Vec<usize> = Vec::new();
        let mut index: usize = 0;
        while index < ids.len()
            invariant
                index <= ids@.len(),
                indices@ == ids@.take(index as int),
            decreases ids@.len() - index,
        {
            indices.push(ids[index]);
            index = index + 1;
            assert(indices@ =~= ids@.take(index as int));
        }
        assert(indices@ =~= ids@);
        TensorPlacement::Indices { axis: 0, indices }
    }
}

/// Whether a key names a tensor that packs the experts of a layer.
pub open spec fn packed_bank(key: Seq<char>) -> bool {
    split_expert(key) is None && crate::text::occurs(key, ".mlp.experts."@) && packed_suffix(
        crate::text::last_segment(key),
    )
}

/// Where an expert tensor goes; tensors without a place are replicated.
pub open spec fn expert_place(key: Seq<char>, table: Ownership) -> Option<Placement> {
    match split_expert(key) {
        Some(global) => if global < table.owners.len() && table.owners[global] == table.rank {
            Some(Placement::Local)
        } else {
            Some(Placement::Omit)
        },
        None => if packed_bank(key) {
            Some(bank_slice(table.local_experts()))
        } else {
            None
        },
    }
}

/// Places of the expert tensors among checkpoint keys, in key order.
pub open spec fn expert_places(keys: Seq<Seq<char>>, table: Ownership) -> Seq<(
    Seq<char>,
    Placement,
)>
    decreases keys.len(),
{
    if keys.len() == 0 {
        Seq::empty()
    } else {
        let before = expert_places(keys.drop_last(), table);
        match expert_place(keys.last(), table) {
            Some(place) => before.push((keys.last(), place)),
            None => before,
        }
    }
}

/// Whether some checkpoint key is a split expert tensor.
pub open spec fn has_split_experts(keys: Seq<Seq<char>>) -> bool {
    exists|i: int| 0 <= i < keys.len() && split_expert(#[trigger] keys[i]) is Some
}

/// The mathematical value of placements.
pub open spec fn places(placements: Seq<KeyPlacement>) -> Seq<(Seq<char>, Placement)> {
    placements.map_values(|entry: KeyPlacement| (entry.key@, entry.placement@))
}

/// Plans which expert tensors of a checkpoint this rank materializes. Everything that
/// the plan does not name is replicated. Also answers whether experts are split into
/// tensors of their own. A packed tensor is sliced by the experts of this rank, so a rank
/// without experts can only plan checkpoints that have none.
pub fn expert_placement_plan(keys: &Vec<String>, assignment: &ExpertAssignment) -> (plan: (
    Vec<KeyPlacement>,
    bool,
))
    requires
        assignment@.local_experts().len() == 0 ==> forall|i: int|
            0 <= i < keys@.len() ==> !packed_bank(#[trigger] keys@[i]@),
    ensures
        places(plan.0@) == expert_places(crate::error::texts(keys@), assignment@),
        plan.1 == has_split_experts(crate::error::texts(keys@)),
{
    let mut placements: Vec<KeyPlacement> = Vec::new();
    let mut has_split: bool = false;
    let ghost texts = crate::error::texts(keys@);
    let mut index: usize = 0;
    assert(places(placements@) =~= expert_places(texts.take(0), assignment@));
    while index < keys.len()
        invariant
            index <= keys@.len(),
            texts == crate::error::texts(keys@),
            assignment@.local_experts().len() == 0 ==> forall|i: int|
                0 <= i < keys@.len() ==> !packed_bank(#[trigger] keys@[i]@),
            places(placements@) == expert_places(texts.take(index as int), assignment@),
            has_split == exists|i: int|
                0 <= i < index && split_expert(#[trigger] texts[i]) is Some,
        decreases keys@.len() - index,
    {
        let ghost before = placements@;
        let key = &keys[index];
        proof {
            assert(texts.take(index + 1).drop_last() =~= texts.take(index as int));
            assert(texts[index as int] == key@);
        }
        let placement = match split_expert_id(key.as_str()) {
            Some(global) => {
                has_split = true;
                assert(split_expert(texts[index as int]) is Some);
                let mine = match assignment.owner(global) {
                    Some(owner) => owner == assignment.rank(),
                    None => false,
                };
                if mine {
                    Some(TensorPlacement::Local)
                } else {
                    Some(TensorPlacement::Omit)
                }
            },
            None => {
                let suffix = behind_last_dot(key.as_str());
                if contains_text(key.as_str(), ".mlp.experts.") && is_packed_suffix(
                    suffix.as_str(),
                ) {
                    Some(slice_axis_zero(assignment))
                } else {
                    None
                }
            },
        };
        match placement {
            Some(placement) => {
                placements.push(KeyPlacement { key: key.clone(), placement });
                assert(places(placements@) =~= places(before).push((key@, placement@)));
            },
            None => {},
        }
        index = index + 1;
    }
    assert(texts.take(index as int) =~= texts);
    (placements, has_split)
}

/// Every split expert tensor of an expert of the model is materialized by exactly one
/// rank of the group, the owner of its expert; every other rank omits it.
pub proof fn split_experts_have_one_home(key: Seq<char>, table: Ownership, global: int)
    requires
        table.valid(),
        split_expert(key) == Some(global),
        0 <= global < table.owners.len(),
    ensures
        expert_place(key, table) == Some(
            if table.owners[global] == table.rank {
                Placement::Local
            } else {
                Placement::Omit
            },
        ),
        localized_name(key, table) is Some <==> table.owners[global] == table.rank,
{
}

/// Whether a key belongs to a decoder expert of the Qwen hybrid architectures.
pub open spec fn qwen_decoder_expert(key: Seq<char>) -> bool {
    "model.layers."@.is_prefix_of(key) && crate::text::occurs(key, ".mlp.experts."@)
}

/// Answers whether a key belongs to a decoder expert of the Qwen hybrid architectures.
pub fn is_qwen_hybrid_decoder_expert_key(key: &str) -> (decoder: bool)
    ensures
        decoder == qwen_decoder_expert(key@),
{
    starts_with(key, "model.layers.") && contains_text(key, ".mlp.experts.")
}

/// Whether a key belongs to a routed expert.
pub open spec fn routed_expert(kind: ModelKind, key: Seq<char>) -> bool {
    match kind {
        ModelKind::Lfm2 => crate::text::occurs(key, ".feed_forward.experts."@),
        ModelKind::NemotronH => crate::text::occurs(key, ".experts."@) && !crate::text::occurs(
            key,
            ".shared_experts."@,
        ),
        ModelKind::Inkling => crate::text::occurs(key, ".mlp.experts."@) || crate::text::occurs(
            key,
            ".moe.experts."@,
        ),
        ModelKind::Qwen3Next => qwen_decoder_expert(key),
        ModelKind::Qwen35Moe => qwen_decoder_expert(key),
        _ => crate::text::occurs(key, ".mlp.experts."@),
    }
}

/// Answers whether a key belongs to a routed expert.
pub fn is_routed_expert_key(kind: ModelKind, key: &str) -> (routed: bool)
    ensures
        routed == routed_expert(kind, key@),
{
    match kind {
        ModelKind::Lfm2 => contains_text(key, ".feed_forward.experts."),
        ModelKind::NemotronH => contains_text(key, ".experts.") && !contains_text(
            key,
            ".shared_experts.",
        ),
        ModelKind::Inkling => contains_text(key, ".mlp.experts.") || contains_text(
            key,
            ".moe.experts.",
        ),
        ModelKind::Qwen3Next | ModelKind::Qwen35Moe => is_qwen_hybrid_decoder_expert_key(key),
        _ => contains_text(key, ".mlp.experts."),
    }
}

/// Whether a key belongs to auxiliary state that is not loaded.
pub open spec fn auxiliary_key(kind: ModelKind, key: Seq<char>) -> bool {
    (kind == ModelKind::Inkling || kind == ModelKind::Qwen3Next) && "model.mtp."@.is_prefix_of(key)
}

/// Answers whether a key belongs to auxiliary state that is not loaded.
pub fn is_auxiliary_checkpoint_key(kind: ModelKind, key: &str) -> (auxiliary: bool)
    ensures
        auxiliary == auxiliary_key(kind, key@),
{
    match kind {
        ModelKind::Inkling | ModelKind::Qwen3Next => starts_with(key, "model.mtp."),
        _ => false,
    }
}

/// Keys that an expert-cached model does not load eagerly, in key order.
pub open spec fn omitted_keys(keys: Seq<Seq<char>>, kind: ModelKind) -> Seq<(Seq<char>, Placement)>
    decreases keys.len(),
{
    if keys.len() == 0 {
        Seq::empty()
    } else {
        let before = omitted_keys(keys.drop_last(), kind);
        let key = keys.last();
        if routed_expert(kind, key) || auxiliary_key(kind, key) {
            before.push((key, Placement::Omit))
        } else {
            before
        }
    }
}

/// Plans which tensors of a checkpoint an expert-cached model does not load eagerly.
/// Everything that the plan does not name is replicated.
pub fn expert_cache_base_plan(keys: &Vec<String>, kind: ModelKind) -> (plan: Vec<KeyPlacement>)
    ensures
        places(plan@) == omitted_keys(crate::error::texts(keys@), kind),
{
    let mut plan: Vec<KeyPlacement> = Vec::new();
    let ghost texts = crate::error::texts(keys@);
    let mut index: usize = 0;
    assert(places(plan@) =~= omitted_keys(texts.take(0), kind));
    while index < keys.len()
        invariant
            index <= keys@.len(),
            texts == crate::error::texts(keys@),
            places(plan@) == omitted_keys(texts.take(index as int), kind),
        decreases keys@.len() - index,
    {
        let ghost before = plan@;
        let key = &keys[index];
        proof {
            assert(texts.take(index + 1).drop_last() =~= texts.take(index as int));
            assert(texts[index as int] == key@);
        }
        if is_routed_expert_key(kind, key.as_str()) || is_auxiliary_checkpoint_key(
            kind,
            key.as_str(),
        ) {
            plan.push(KeyPlacement { key: key.clone(), placement: TensorPlacement::Omit });
            assert(places(plan@) =~= places(before).push((key@, Placement::Omit)));
        }
        index = index + 1;
    }
    assert(texts.take(index as int) =~= texts);
    plan
}

/// Whether a bank of so many experts still has to be sliced.
pub fn expert_bank_needs_slicing(bank_experts: i32, assignment: &ExpertAssignment) -> (outcome: Result<
    bool,
    Error,
>)
    ensures
        ({
            let table = assignment@;
            &&& crate::error::failed(outcome) == if bank_experts < 0 {
                Some(
                    Failure::Parallel(
                        "expert bank has invalid negative expert count "@
                            + crate::text::signed_decimal(bank_experts as int),
                    ),
                )
            } else if bank_experts != table.owners.len() && bank_experts
                != table.local_experts().len() {
                Some(
                    Failure::Parallel(
                        "expert bank contains "@ + crate::text::decimal(bank_experts as nat)
                            + " experts, expected either "@ + crate::text::decimal(
                            table.owners.len(),
                        ) + " global experts or "@ + crate::text::decimal(
                            table.local_experts().len(),
                        ) + " experts local to EP rank "@ + crate::text::decimal(
                            table.rank as nat,
                        ),
                    ),
                )
            } else {
                None
            }
            &&& outcome matches Ok(sliced) ==> sliced == (bank_experts == table.owners.len())
        }),
{
    if bank_experts < 0 {
        let mut text = "expert bank has invalid negative expert count ".to_owned();
        text.append(crate::text::signed_text(bank_experts as i64).as_str());
        return Err(Error::Parallel(text));
    }
    let count: usize = bank_experts as usize;
    if count == assignment.global_expert_count() {
        Ok(true)
    } else if count == assignment.local_expert_count() {
        Ok(false)
    } else {
        let mut text = "expert bank contains ".to_owned();
        text.append(usize_text(count).as_str());
        text.append(" experts, expected either ");
        text.append(usize_text(assignment.global_expert_count()).as_str());
        text.append(" global experts or ");
        text.append(usize_text(assignment.local_expert_count()).as_str());
        text.append(" experts local to EP rank ");
        text.append(usize_text(assignment.rank()).as_str());
        Err(Error::Parallel(text))
    }
}

/// Whether a placement holds the row of an expert in a packed tensor.
pub open spec fn holds_expert(place: Placement, global: int) -> bool {
    match place {
        Placement::Range(axis, start, end) => axis == 0 && start <= global < end,
        Placement::Indices(axis, indices) => axis == 0 && indices.contains(global as usize),
        _ => false,
    }
}

/// Where the experts of a layer begin in a checkpoint key.
proof fn experts_begin_behind_the_layer(layer: nat, rest: Seq<char>)
    ensures
        ({
            let head = "model.layers."@ + crate::text::decimal(layer);
            let key = head + ".mlp.experts."@ + rest;
            &&& crate::text::first_at(key, ".mlp.experts."@, 0) == Some(head.len() as int)
            &&& key.skip(head.len() as int + ".mlp.experts."@.len()) == rest
            &&& forall|i: int|
                0 <= i < head.len() ==> !(#[trigger] crate::text::stands_at(
                    key,
                    ".mlp.experts."@,
                    i,
                ))
        }),
{
    reveal_strlit("model.layers.");
    reveal_strlit(".mlp.experts.");
    let digits = crate::text::decimal(layer);
    crate::text::decimal_denotes(layer);
    let head = "model.layers."@ + digits;
    let marker = ".mlp.experts."@;
    let key = head + marker + rest;
    let at = head.len() as int;
    assert(key.subrange(at, at + marker.len()) =~= marker);
    assert(key.skip(at + marker.len()) =~= rest);
    assert forall|i: int| 0 <= i < at implies !(#[trigger] crate::text::stands_at(key, marker, i)) by {
        if crate::text::stands_at(key, marker, i) {
            assert(key.subrange(i, i + marker.len())[0] == key[i]);
            assert(key.subrange(i, i + marker.len())[1] == key[i + 1]);
            assert(marker[0] == '.');
            assert(marker[1] == 'm');
            if i < 13 {
                assert(key[i] == "model.layers."@[i]);
                if i < 12 {
                    assert(key[i + 1] == "model.layers."@[i + 1]);
                } else {
                    assert(key[13] == digits[0]);
                    assert(crate::text::is_digit(digits[0]));
                }
            } else {
                assert(key[i] == digits[i - 13]);
                assert(crate::text::is_digit(digits[i - 13]));
            }
        }
    }
    crate::text::patterns_are_found_where_they_first_stand(key, marker, 0, at);
}

proof fn place_is_listed(keys: Seq<Seq<char>>, table: Ownership, index: int)
    requires
        0 <= index < keys.len(),
    ensures
        expert_place(keys[index], table) matches Some(place) ==> expert_places(
            keys,
            table,
        ).contains((keys[index], place)),
    decreases keys.len(),
{
    let all = expert_places(keys, table);
    let before = expert_places(keys.drop_last(), table);
    match expert_place(keys[index], table) {
        Some(place) => {
            if index < keys.len() - 1 {
                place_is_listed(keys.drop_last(), table, index);
                let i = choose|i: int| 0 <= i < before.len() && before[i] == (keys[index], place);
                assert(all[i] == before[i]);
            } else {
                assert(all.last() == (keys[index], place));
            }
        },
        None => {},
    }
}

proof fn consecutive_ids_count_up(ids: Seq<usize>, index: int)
    requires
        consecutive(ids),
        0 <= index < ids.len(),
    ensures
        ids[index] == ids[0] + index,
    decreases index,
{
    if index > 0 {
        consecutive_ids_count_up(ids, index - 1);
        assert(ids[index - 1] + 1 == ids[index - 1 + 1]);
    }
}

/// A slice of a packed tensor holds exactly the rows of the experts of its rank.
pub proof fn bank_slices_hold_the_own_experts(table: Ownership, global: int)
    requires
        table.valid(),
        table.local_experts().len() > 0,
        0 <= global < table.owners.len(),
    ensures
        holds_expert(bank_slice(table.local_experts()), global) <==> table.owners[global]
            == table.rank,
{
    let ids = table.local_experts();
    crate::expert_parallel::assignment::experts_are_partitioned(
        table.owners,
        table.rank,
        global as usize,
    );
    if consecutive(ids) {
        consecutive_ids_count_up(ids, ids.len() - 1);
        crate::expert_parallel::assignment::assignment_round_trips(table, 0, ids.len() - 1);
        if ids.contains(global as usize) {
            let i = choose|i: int| 0 <= i < ids.len() && ids[i] == global as usize;
            consecutive_ids_count_up(ids, i);
        }
        if ids[0] <= global < ids[0] + ids.len() {
            consecutive_ids_count_up(ids, global - ids[0]);
            assert(ids[global - ids[0]] == global as usize);
        }
    }
}

/// Every packed bank of expert weights, and every companion of one, is placed by its
/// experts: the plan has an entry for its key, and that entry holds the rows of exactly the
/// experts that this rank owns. The entry's placement is returned.
pub proof fn packed_banks_hold_the_own_experts(
    keys: Seq<Seq<char>>,
    index: int,
    layer: nat,
    name: Seq<char>,
    table: Ownership,
) -> (place: Placement)
    requires
        table.valid(),
        table.local_experts().len() > 0,
        0 <= index < keys.len(),
        keys[index] == "model.layers."@ + crate::text::decimal(layer) + ".mlp.experts."@ + name,
        name == "gate_up_proj"@ || name == "gate_proj"@ || name == "up_proj"@
            || name == "down_proj"@ || name == "gate_proj_scale_inv"@
            || name == "up_proj_scale_inv"@ || name == "down_proj_scale_inv"@
            || name == "gate_up_proj_scales"@ || name == "gate_up_proj_biases"@
            || name == "gate_proj_scales"@ || name == "gate_proj_biases"@
            || name == "up_proj_scales"@ || name == "up_proj_biases"@
            || name == "down_proj_scales"@ || name == "down_proj_biases"@,
    ensures
        expert_places(keys, table).contains((keys[index], place)),
        forall|global: int|
            0 <= global < table.owners.len() ==> (#[trigger] holds_expert(place, global)
                <==> table.owners[global] == table.rank),
        place matches Placement::Indices(axis, indices) ==> forall|i: int, j: int|
            0 <= i < j < indices.len() ==> indices[i] < indices[j],
{
    reveal_strlit("gate_up_proj");
    reveal_strlit("gate_proj");
    reveal_strlit("up_proj");
    reveal_strlit("down_proj");
    reveal_strlit("gate_proj_scale_inv");
    reveal_strlit("up_proj_scale_inv");
    reveal_strlit("down_proj_scale_inv");
    reveal_strlit("gate_up_proj_scales");
    reveal_strlit("gate_up_proj_biases");
    reveal_strlit("gate_proj_scales");
    reveal_strlit("gate_proj_biases");
    reveal_strlit("up_proj_scales");
    reveal_strlit("up_proj_biases");
    reveal_strlit("down_proj_scales");
    reveal_strlit("down_proj_biases");
    reveal_strlit(".mlp.experts.");
    let key = keys[index];
    let head = "model.layers."@ + crate::text::decimal(layer);
    experts_begin_behind_the_layer(layer, name);
    assert(name[0] == 'g' || name[0] == 'u' || name[0] == 'd');
    assert forall|i: int| 0 <= i < name.len() implies #[trigger] name[i] != '.' by {}
    crate::text::first_segments_precede_the_first_dot(name, Seq::empty());
    assert(!crate::text::is_digit(name[0]));
    assert(crate::text::parsed_size(name) is None);
    let before = head + ".mlp.experts"@;
    reveal_strlit(".mlp.experts");
    assert(key =~= before + seq!['.'] + name);
    crate::text::last_segments_follow_the_last_dot(before, name);
    let place = bank_slice(table.local_experts());
    place_is_listed(keys, table, index);
    assert forall|global: int| 0 <= global < table.owners.len() implies (#[trigger] holds_expert(
        place,
        global,
    ) <==> table.owners[global] == table.rank) by {
        bank_slices_hold_the_own_experts(table, global);
    }
    let ids = table.local_experts();
    assert forall|i: int, j: int| 0 <= i < j < ids.len() implies ids[i] < ids[j] by {
        crate::expert_parallel::assignment::local_experts_ascend(table, i, j);
    }
    place
}

/// A tensor of a single expert is placed by that expert: the plan has an entry for its key,
/// whole on the rank that owns the expert and omitted elsewhere. There it gets the name of
/// the owner-local expert, which is otherwise the same.
pub proof fn single_experts_go_to_their_owner(
    keys: Seq<Seq<char>>,
    index: int,
    layer: nat,
    global: usize,
    rest: Seq<char>,
    table: Ownership,
)
    requires
        table.valid(),
        0 <= index < keys.len(),
        keys[index] == "model.layers."@ + crate::text::decimal(layer) + ".mlp.experts."@
            + crate::text::decimal(global as nat) + "."@ + rest,
        global < table.owners.len(),
    ensures
        expert_places(keys, table).contains(
            (
                keys[index],
                if table.owners[global as int] == table.rank {
                    Placement::Local
                } else {
                    Placement::Omit
                },
            ),
        ),
        has_split_experts(keys),
        table.owners[global as int] == table.rank ==> localized_name(keys[index], table) == Some(
            "model.layers."@ + crate::text::decimal(layer) + ".mlp.experts."@
                + crate::text::decimal(table.local_id(global as int) as nat) + "."@ + rest,
        ),
        table.owners[global as int] != table.rank ==> localized_name(keys[index], table) is None,
{
    reveal_strlit(".");
    reveal_strlit(".mlp.experts.");
    let key = keys[index];
    let digits = crate::text::decimal(global as nat);
    let head = "model.layers."@ + crate::text::decimal(layer);
    let behind = digits + "."@ + rest;
    assert(key =~= head + ".mlp.experts."@ + behind);
    experts_begin_behind_the_layer(layer, behind);
    crate::text::decimal_denotes(global as nat);
    assert forall|i: int| 0 <= i < digits.len() implies #[trigger] digits[i] != '.' by {
        assert(crate::text::is_digit(digits[i]));
    }
    assert(behind =~= digits + seq!['.'] + rest);
    crate::text::first_segments_precede_the_first_dot(digits, rest);
    crate::text::numerals_read_back(global);
    assert(split_expert(key) == Some(global as int));
    place_is_listed(keys, table, index);
    if table.owners[global as int] == table.rank {
        let at = head.len() as int;
        let marker = ".mlp.experts."@ + digits + "."@;
        assert(key.subrange(at, at + marker.len()) =~= marker);
        assert forall|i: int| 0 <= i < at implies !(#[trigger] crate::text::stands_at(
            key,
            marker,
            i,
        )) by {
            if crate::text::stands_at(key, marker, i) {
                assert(key.subrange(i, i + ".mlp.experts."@.len()) =~= key.subrange(
                    i,
                    i + marker.len(),
                ).take(".mlp.experts."@.len() as int));
                assert(marker.take(".mlp.experts."@.len() as int) =~= ".mlp.experts."@);
                assert(crate::text::stands_at(key, ".mlp.experts."@, i));
            }
        }
        crate::text::patterns_are_found_where_they_first_stand(key, marker, 0, at);
        assert(key.take(at) =~= head);
        assert(key.skip(at + marker.len()) =~= rest);
        let local = crate::text::decimal(table.local_id(global as int) as nat);
        assert(localized_name(key, table)->Some_0 =~= head + ".mlp.experts."@ + local + "."@
            + rest);
    }
}

/// The plan names nothing but expert tensors: an entry stands for a key of the checkpoint
/// in which experts occur, and everything else is replicated. The key's position is
/// returned.
pub proof fn everything_else_is_replicated(
    keys: Seq<Seq<char>>,
    table: Ownership,
    entry: int,
) -> (index: int)
    requires
        0 <= entry < expert_places(keys, table).len(),
    ensures
        0 <= index < keys.len(),
        expert_places(keys, table)[entry].0 == keys[index],
        crate::text::first_at(keys[index], ".mlp.experts."@, 0) is Some,
    decreases keys.len(),
{
    let before = expert_places(keys.drop_last(), table);
    if entry < before.len() {
        everything_else_is_replicated(keys.drop_last(), table, entry)
    } else {
        keys.len() - 1
    }
}

/// Tensors below the routed experts of an architecture are routed, whatever their layer;
/// shared experts and prediction heads are not.
pub proof fn expert_tensors_are_routed(kind: ModelKind, layer: Seq<char>, name: Seq<char>)
    ensures
        kind is Lfm2 ==> routed_expert(kind, layer + ".feed_forward.experts."@ + name),
        kind is Inkling ==> routed_expert(kind, layer + ".moe.experts."@ + name),
        !(kind is Lfm2 || kind is NemotronH) ==> routed_expert(
            kind,
            "model.layers."@ + layer + ".mlp.experts."@ + name,
        ),
        kind is NemotronH ==> routed_expert(kind, layer + ".experts."@ + name)
            == !crate::text::occurs(layer + ".experts."@ + name, ".shared_experts."@),
        kind is NemotronH ==> !routed_expert(kind, layer + ".shared_experts."@ + name),
        (kind is DeepSeekV3 || kind is GptOss || kind is Qwen3 || kind is Qwen3VlMoe)
            ==> routed_expert(kind, layer + ".mlp.experts."@ + name),
        (kind is Qwen3Next || kind is Qwen35Moe) && !("model.layers."@).is_prefix_of(name)
            ==> !routed_expert(kind, name),
{
    crate::text::enclosed_patterns_occur(layer, ".moe.experts."@, name);
    crate::text::enclosed_patterns_occur(layer, ".feed_forward.experts."@, name);
    crate::text::enclosed_patterns_occur(layer, ".mlp.experts."@, name);
    crate::text::enclosed_patterns_occur(layer, ".experts."@, name);
    crate::text::enclosed_patterns_occur(layer, ".shared_experts."@, name);
    crate::text::enclosed_patterns_occur("model.layers."@ + layer, ".mlp.experts."@, name);
    let key = "model.layers."@ + layer + ".mlp.experts."@ + name;
    assert("model.layers."@.is_prefix_of(key));
}

/// A tensor of no expert is routed in no architecture.
pub proof fn other_tensors_are_not_routed(kind: ModelKind, key: Seq<char>)
    requires
        !crate::text::occurs(key, ".experts."@),
    ensures
        !routed_expert(kind, key),
{
    reveal_strlit(".experts.");
    reveal_strlit(".moe.experts.");
    reveal_strlit(".feed_forward.experts.");
    reveal_strlit(".mlp.experts.");
    crate::text::parts_of_patterns_occur(key, ".moe.experts."@, ".experts."@, 4);
    crate::text::parts_of_patterns_occur(key, ".feed_forward.experts."@, ".experts."@, 13);
    crate::text::parts_of_patterns_occur(key, ".mlp.experts."@, ".experts."@, 4);
}

/// Prediction state is left out exactly where the architecture keeps it beside the model:
/// for Inkling and Qwen3-Next, below `model.mtp.`.
pub proof fn prediction_state_is_left_out(kind: ModelKind, name: Seq<char>)
    ensures
        auxiliary_key(kind, "model.mtp."@ + name) <==> kind is Inkling || kind is Qwen3Next,
        !("model.mtp."@).is_prefix_of(name) ==> !auxiliary_key(kind, name),
{
    assert("model.mtp."@.is_prefix_of("model.mtp."@ + name));
}

/// An expert-cached model leaves out exactly the routed experts and the auxiliary state
/// among the keys, each where it stands, and loads everything else.
pub proof fn only_experts_and_auxiliary_state_are_left_out(
    keys: Seq<Seq<char>>,
    next: Seq<char>,
    kind: ModelKind,
)
    ensures
        omitted_keys(Seq::empty(), kind) == Seq::<(Seq<char>, Placement)>::empty(),
        routed_expert(kind, next) || auxiliary_key(kind, next) ==> omitted_keys(
            keys.push(next),
            kind,
        ) == omitted_keys(keys, kind).push((next, Placement::Omit)),
        !routed_expert(kind, next) && !auxiliary_key(kind, next) ==> omitted_keys(
            keys.push(next),
            kind,
        ) == omitted_keys(keys, kind),
{
    assert(keys.push(next).drop_last() =~= keys);
}

} // verus!
