//! Expert banks: which per-expert bindings they are made of, and how a rank cuts a
//! global bank down to its own experts.

use vstd::prelude::*;
use vstd::string::StringExecFns;

use crate::error::{Error, Failure};
use crate::expert_cache::acquire::AcquiredExperts;
use crate::expert_cache::error::{ExpertCacheError, ExpertCacheFailure};
use crate::expert_parallel::assignment::{ExpertAssignment, Ownership};
use crate::expert_parallel::placement::{expert_bank_needs_slicing, ModelKind};
use crate::text::{signed_text, usize_text};

verus! {

/// One per-expert binding of a compact bank.
#[derive(Debug, Clone, PartialEq, Eq)]
pub struct BankBinding {
    /// Name of the binding.
    pub name: String,
    /// Whether every expert has to provide it.
    pub required: bool,
}

/// The names of bindings and whether each is required.
pub open spec fn layout_of(bindings: Seq<BankBinding>) -> Seq<(Seq<char>, bool)> {
    bindings.map_values(|binding: BankBinding| (binding.name@, binding.required))
}

/// The bindings of the compact bank of an architecture, in the order in which they are
/// gathered.
pub open spec fn bank_layout(kind: ModelKind) -> Seq<(Seq<char>, bool)> {
    match kind {
        ModelKind::DeepSeekV3 => seq![
            ("gate_proj"@, true),
            ("gate_proj_scale_inv"@, false),
            ("gate_proj_scales"@, false),
            ("gate_proj_biases"@, false),
            ("up_proj"@, true),
            ("up_proj_scale_inv"@, false),
            ("up_proj_scales"@, false),
            ("up_proj_biases"@, false),
            ("down_proj"@, true),
            ("down_proj_scale_inv"@, false),
            ("down_proj_scales"@, false),
            ("down_proj_biases"@, false),
        ],
        ModelKind::GptOss => seq![
            ("gate_up_proj_blocks"@, true),
            ("gate_up_proj_scales"@, true),
            ("gate_up_proj_bias"@, true),
            ("down_proj_blocks"@, true),
            ("down_proj_scales"@, true),
            ("down_proj_bias"@, true),
        ],
        ModelKind::Inkling => seq![("gate_up_proj"@, true), ("down_proj"@, true)],
        ModelKind::NemotronH => seq![
            ("up_proj"@, true),
            ("up_proj_scales"@, false),
            ("up_proj_biases"@, false),
            ("down_proj"@, true),
            ("down_proj_scales"@, false),
            ("down_proj_biases"@, false),
        ],
        ModelKind::Qwen3Next | ModelKind::Qwen35Moe => seq![
            ("gate_up_proj"@, true),
            ("gate_up_proj_scale_inv"@, false),
            ("gate_up_proj_scales"@, false),
            ("gate_up_proj_biases"@, false),
            ("down_proj"@, true),
            ("down_proj_scale_inv"@, false),
            ("down_proj_scales"@, false),
            ("down_proj_biases"@, false),
        ],
        ModelKind::Qwen3 | ModelKind::Qwen3VlMoe | ModelKind::Lfm2 => seq![
            ("gate_up_proj"@, true),
            ("gate_up_proj_scales"@, false),
            ("gate_up_proj_biases"@, false),
            ("down_proj"@, true),
            ("down_proj_scales"@, false),
            ("down_proj_biases"@, false),
        ],
    }
}

fn add_binding(bindings: &mut Vec<BankBinding>, name: &str, required: bool)
    ensures
        layout_of(final(bindings)@) == layout_of(old(bindings)@).push((name@, required)),
{
    let ghost before = bindings@;
    bindings.push(BankBinding { name: name.to_owned(), required });
    assert(layout_of(bindings@) =~= layout_of(before).push((name@, required)));
}

/// A projection with optional companions.
fn add_projection(bindings: &mut Vec<BankBinding>, names: [&str; 4], inverse: bool)
    ensures
        layout_of(final(bindings)@) == layout_of(old(bindings)@).push((names[0]@, true))
            + (if inverse {
            seq![(names[1]@, false)]
        } else {
            seq![]
        }) + seq![(names[2]@, false), (names[3]@, false)],
{
    let ghost before = layout_of(bindings@);
    add_binding(bindings, names[0], true);
    if inverse {
        add_binding(bindings, names[1], false);
    }
    add_binding(bindings, names[2], false);
    add_binding(bindings, names[3], false);
    assert(layout_of(bindings@) =~= before.push((names[0]@, true)) + (if inverse {
        seq![(names[1]@, false)]
    } else {
        seq![]
    }) + seq![(names[2]@, false), (names[3]@, false)]);
}

/// Lists the bindings of the compact bank of an architecture.
pub fn bank_bindings(kind: ModelKind) -> (bindings: Vec<BankBinding>)
    ensures
        layout_of(bindings@) == bank_layout(kind),
{
    let mut bindings: Vec<BankBinding> = Vec::new();
    let gate = ["gate_proj", "gate_proj_scale_inv", "gate_proj_scales", "gate_proj_biases"];
    let up = ["up_proj", "up_proj_scale_inv", "up_proj_scales", "up_proj_biases"];
    let down = ["down_proj", "down_proj_scale_inv", "down_proj_scales", "down_proj_biases"];
    let gate_up = [
        "gate_up_proj",
        "gate_up_proj_scale_inv",
        "gate_up_proj_scales",
        "gate_up_proj_biases",
    ];
    match kind {
        ModelKind::DeepSeekV3 => {
            add_projection(&mut bindings, gate, true);
            add_projection(&mut bindings, up, true);
            add_projection(&mut bindings, down, true);
        },
        ModelKind::GptOss => {
            add_binding(&mut bindings, "gate_up_proj_blocks", true);
            add_binding(&mut bindings, "gate_up_proj_scales", true);
            add_binding(&mut bindings, "gate_up_proj_bias", true);
            add_binding(&mut bindings, "down_proj_blocks", true);
            add_binding(&mut bindings, "down_proj_scales", true);
            add_binding(&mut bindings, "down_proj_bias", true);
        },
        ModelKind::Inkling => {
            add_binding(&mut bindings, "gate_up_proj", true);
            add_binding(&mut bindings, "down_proj", true);
        },
        ModelKind::NemotronH => {
            add_projection(&mut bindings, up, false);
            add_projection(&mut bindings, down, false);
        },
        ModelKind::Qwen3Next | ModelKind::Qwen35Moe => {
            add_projection(&mut bindings, gate_up, true);
            add_projection(&mut bindings, down, true);
        },
        ModelKind::Qwen3 | ModelKind::Qwen3VlMoe | ModelKind::Lfm2 => {
            add_projection(&mut bindings, gate_up, false);
            add_projection(&mut bindings, down, false);
        },
    }
    assert(layout_of(bindings@) =~= bank_layout(kind));
    bindings
}

/// Why gathering a bank fails from binding `from` on, if it does. `present` says for
/// each binding which experts provide it.
pub open spec fn gather_failure(
    layout: Seq<(Seq<char>, bool)>,
    experts: int,
    present: Seq<Seq<bool>>,
    from: int,
) -> Option<ExpertCacheFailure>
    decreases layout.len() - from,
{
    if from >= layout.len() {
        None
    } else if layout[from].1 && experts == 0 {
        Some(ExpertCacheFailure::EmptyCompactBinding(layout[from].0))
    } else if !layout[from].1 && present[from].contains(true) && present[from].contains(false) {
        Some(ExpertCacheFailure::InconsistentCompanion(layout[from].0))
    } else {
        gather_failure(layout, experts, present, from + 1)
    }
}

/// Whether each binding of a bank is gathered: a required one always, an optional one
/// where the experts provide it.
pub open spec fn gathered(layout: Seq<(Seq<char>, bool)>, present: Seq<Seq<bool>>) -> Seq<bool> {
    Seq::new(layout.len(), |i: int| layout[i].1 || present[i].contains(true))
}

/// The presence of bindings, by view.
pub open spec fn presence(present: Seq<Vec<bool>>) -> Seq<Seq<bool>> {
    present.map_values(|experts: Vec<bool>| experts@)
}

/// Checks the bindings of a compact bank and answers which of them are gathered.
pub fn gather_bank<L>(acquired: &AcquiredExperts<L>, kind: ModelKind, present: &Vec<Vec<bool>>) -> (outcome:
    Result<Vec<bool>, ExpertCacheError>)
    requires
        present@.len() == bank_layout(kind).len(),
        forall|i: int|
            0 <= i < present@.len() ==> (#[trigger] present@[i])@.len() == acquired.leases@.len(),
    ensures
        crate::expert_cache::error::refused(outcome) == gather_failure(
            bank_layout(kind),
            acquired.leases@.len() as int,
            presence(present@),
            0,
        ),
        outcome matches Ok(used) ==> used@ == gathered(bank_layout(kind), presence(present@)),
{
    let bindings = bank_bindings(kind);
    let ghost layout = bank_layout(kind);
    let ghost provided = presence(present@);
    let mut used: Vec<bool> = Vec::new();
    let mut index: usize = 0;
    while index < bindings.len()
        invariant
            index <= bindings@.len(),
            layout == layout_of(bindings@),
            layout == bank_layout(kind),
            layout.len() == present@.len(),
            provided == presence(present@),
            forall|i: int|
                0 <= i < present@.len() ==> (#[trigger] present@[i])@.len()
                    == acquired.leases@.len(),
            gather_failure(layout, acquired.leases@.len() as int, provided, 0) == gather_failure(
                layout,
                acquired.leases@.len() as int,
                provided,
                index as int,
            ),
            used@ == gathered(layout, provided).take(index as int),
        decreases bindings@.len() - index,
    {
        let ghost before = used@;
        let binding = &bindings[index];
        proof {
            assert(layout[index as int] == (binding.name@, binding.required));
            assert(provided[index as int] == present@[index as int]@);
        }
        if binding.required {
            match acquired.compact_binding(binding.name.as_str()) {
                Ok(_) => {
                    used.push(true);
                },
                Err(error) => {
                    return Err(error);
                },
            }
        } else {
            match acquired.optional_compact_binding(binding.name.as_str(), &present[index]) {
                Ok(some) => {
                    used.push(some);
                },
                Err(error) => {
                    return Err(error);
                },
            }
        }
        proof {
            assert(gathered(layout, provided).take(index + 1) =~= gathered(layout, provided).take(
                index as int,
            ).push(gathered(layout, provided)[index as int]));
        }
        index = index + 1;
    }
    assert(gathered(layout, provided).take(index as int) =~= gathered(layout, provided));
    Ok(used)
}

/// Where the expert bank of a layer stands in the model.
pub open spec fn bank_prefix(kind: ModelKind, layer: nat) -> Seq<char> {
    match kind {
        ModelKind::Lfm2 => "model.layers."@ + crate::text::decimal(layer)
            + ".feed_forward.experts"@,
        ModelKind::NemotronH => "model.layers."@ + crate::text::decimal(layer) + ".moe.experts"@,
        ModelKind::Qwen3VlMoe => "model.language_model.layers."@ + crate::text::decimal(layer)
            + ".mlp.experts"@,
        _ => "model.layers."@ + crate::text::decimal(layer) + ".mlp.experts"@,
    }
}

/// Returns where the expert bank of a layer stands in the model.
pub fn expert_bank_prefix(kind: ModelKind, layer: usize) -> (prefix: String)
    ensures
        prefix@ == bank_prefix(kind, layer as nat),
{
    let mut prefix = match kind {
        ModelKind::Qwen3VlMoe => "model.language_model.layers.".to_owned(),
        _ => "model.layers.".to_owned(),
    };
    prefix.append(usize_text(layer).as_str());
    match kind {
        ModelKind::Lfm2 => prefix.append(".feed_forward.experts"),
        ModelKind::NemotronH => prefix.append(".moe.experts"),
        _ => prefix.append(".mlp.experts"),
    }
    prefix
}

/// One tensor of an expert bank: a row of bytes for each expert.
#[derive(Debug, Clone, Copy, PartialEq, Eq, Structural)]
pub struct BankTensor {
    /// Experts in the tensor.
    pub rows: usize,
    /// Bytes of one expert.
    pub row_bytes: usize,
}

/// Tensors of an expert bank.
#[derive(Debug, PartialEq, Eq)]
pub struct ExpertBank {
    /// Experts that the bank holds.
    pub num_experts: i32,
    /// Tensors of the bank; optional ones may be absent.
    pub tensors: Vec<Option<BankTensor>>,
}

/// Bytes of a tensor.
pub open spec fn tensor_bytes(tensor: Option<BankTensor>) -> int {
    match tensor {
        Some(tensor) => tensor.rows * tensor.row_bytes,
        None => 0,
    }
}

/// Bytes of tensors together.
pub open spec fn tensors_bytes(tensors: Seq<Option<BankTensor>>) -> int
    decreases tensors.len(),
{
    if tensors.len() == 0 {
        0
    } else {
        tensors_bytes(tensors.drop_last()) + tensor_bytes(tensors.last())
    }
}

/// Tensors cut down to so many experts.
pub open spec fn cut(tensors: Seq<Option<BankTensor>>, experts: usize) -> Seq<Option<BankTensor>> {
    tensors.map_values(
        |tensor: Option<BankTensor>|
            match tensor {
                Some(tensor) => Some(BankTensor { rows: experts, ..tensor }),
                None => None,
            },
    )
}

/// Whether a bank holds all experts of the model, so that it is cut.
pub open spec fn is_global(bank: ExpertBank, table: Ownership) -> bool {
    bank.num_experts == table.owners.len()
}

/// The tensors of a bank after it was finalized for a rank.
pub open spec fn finalized(bank: ExpertBank, table: Ownership) -> Seq<Option<BankTensor>> {
    if is_global(bank, table) {
        cut(bank.tensors@, table.local_experts().len() as usize)
    } else {
        bank.tensors@
    }
}

/// Why a bank cannot be finalized for a rank, if it cannot.
pub open spec fn bank_failure(bank: ExpertBank, table: Ownership) -> Option<Failure> {
    if bank.num_experts < 0 {
        Some(
            Failure::Parallel(
                "expert bank has invalid negative expert count "@ + crate::text::signed_decimal(
                    bank.num_experts as int,
                ),
            ),
        )
    } else if bank.num_experts != table.owners.len() && bank.num_experts
        != table.local_experts().len() {
        Some(
            Failure::Parallel(
                "expert bank contains "@ + crate::text::decimal(bank.num_experts as nat)
                    + " experts, expected either "@ + crate::text::decimal(table.owners.len())
                    + " global experts or "@ + crate::text::decimal(table.local_experts().len())
                    + " experts local to EP rank "@ + crate::text::decimal(table.rank as nat),
            ),
        )
    } else {
        None
    }
}

/// Whether the tensors of a bank have one row for each expert that it holds, and its
/// bytes are countable.
pub open spec fn bank_wf(bank: ExpertBank) -> bool {
    &&& forall|i: int|
        0 <= i < bank.tensors@.len() ==> (#[trigger] bank.tensors@[i] matches Some(tensor)
            ==> tensor.rows == bank.num_experts)
    &&& tensors_bytes(bank.tensors@) <= usize::MAX
}

proof fn tensors_bytes_grow(tensors: Seq<Option<BankTensor>>, length: int)
    requires
        0 <= length <= tensors.len(),
    ensures
        0 <= tensors_bytes(tensors.take(length)) <= tensors_bytes(tensors),
    decreases tensors.len(),
{
    if length == tensors.len() {
        assert(tensors.take(length) =~= tensors);
    }
    if tensors.len() > 0 {
        let last = tensors.last();
        assert(tensor_bytes(last) >= 0) by {
            match last {
                Some(tensor) => {
                    assert(tensor.rows * tensor.row_bytes >= 0) by (nonlinear_arith);
                },
                None => {},
            }
        }
        if length == tensors.len() {
            tensors_bytes_grow(tensors.drop_last(), length - 1);
            assert(tensors.drop_last().take(length - 1) =~= tensors.drop_last());
        } else {
            tensors_bytes_grow(tensors.drop_last(), length);
            assert(tensors.drop_last().take(length) =~= tensors.take(length));
        }
    }
}

proof fn cutting_shrinks(tensors: Seq<Option<BankTensor>>, experts: usize, rows: int)
    requires
        experts <= rows,
        forall|i: int|
            0 <= i < tensors.len() ==> (#[trigger] tensors[i] matches Some(tensor) ==> tensor.rows
                == rows),
    ensures
        tensors_bytes(cut(tensors, experts)) <= tensors_bytes(tensors),
    decreases tensors.len(),
{
    if tensors.len() > 0 {
        let rest = tensors.drop_last();
        assert forall|i: int| 0 <= i < rest.len() implies (#[trigger] rest[i] matches Some(tensor)
            ==> tensor.rows == rows) by {
            assert(rest[i] == tensors[i]);
        }
        cutting_shrinks(rest, experts, rows);
        assert(cut(tensors, experts).drop_last() =~= cut(rest, experts));
        match tensors.last() {
            Some(tensor) => {
                assert(experts * tensor.row_bytes <= tensor.rows * tensor.row_bytes)
                    by (nonlinear_arith)
                    requires
                        experts <= tensor.rows,
                ;
            },
            None => {},
        }
    }
}

fn sum_tensors(tensors: &Vec<Option<BankTensor>>) -> (bytes: usize)
    requires
        tensors_bytes(tensors@) <= usize::MAX,
    ensures
        bytes == tensors_bytes(tensors@),
{
    let mut bytes: usize = 0;
    let mut index: usize = 0;
    while index < tensors.len()
        invariant
            index <= tensors@.len(),
            tensors_bytes(tensors@) <= usize::MAX,
            bytes == tensors_bytes(tensors@.take(index as int)),
        decreases tensors@.len() - index,
    {
        proof {
            assert(tensors@.take(index + 1).drop_last() =~= tensors@.take(index as int));
            tensors_bytes_grow(tensors@, index as int);
            tensors_bytes_grow(tensors@, index + 1);
        }
        match tensors[index] {
            Some(tensor) => {
                let size: usize = tensor.rows * tensor.row_bytes;
                bytes = bytes + size;
            },
            None => {},
        }
        index = index + 1;
    }
    assert(tensors@.take(index as int) =~= tensors@);
    bytes
}

/// Cuts a bank down to the experts of this rank, unless it holds just these already, and
/// answers the bytes that it then takes.
pub fn finalize_expert_bank(bank: ExpertBank, assignment: &ExpertAssignment) -> (outcome: Result<
    (ExpertBank, usize),
    Error,
>)
    requires
        bank_wf(bank),
    ensures
        crate::error::failed(outcome) == bank_failure(bank, assignment@),
        outcome matches Ok((local, bytes)) ==> {
            &&& local.num_experts == assignment@.local_experts().len()
            &&& local.tensors@ == finalized(bank, assignment@)
            &&& bytes == tensors_bytes(local.tensors@)
            &&& bytes <= tensors_bytes(bank.tensors@)
        },
{
    match expert_bank_needs_slicing(bank.num_experts, assignment) {
        Err(error) => Err(error),
        Ok(false) => {
            let bytes: usize = sum_tensors(&bank.tensors);
            Ok((bank, bytes))
        },
        Ok(true) => {
            let experts: usize = assignment.local_expert_count();
            proof {
                crate::expert_parallel::assignment::local_experts_bounded(assignment@);
                cutting_shrinks(bank.tensors@, experts, bank.num_experts as int);
            }
            let mut tensors: Vec<Option<BankTensor>> = Vec::new();
            let mut index: usize = 0;
            while index < bank.tensors.len()
                invariant
                    index <= bank.tensors@.len(),
                    tensors@ == cut(bank.tensors@, experts).take(index as int),
                decreases bank.tensors@.len() - index,
            {
                match bank.tensors[index] {
                    Some(tensor) => {
                        tensors.push(
                            Some(BankTensor { rows: experts, row_bytes: tensor.row_bytes }),
                        );
                    },
                    None => {
                        tensors.push(None);
                    },
                }
                proof {
                    let all = cut(bank.tensors@, experts);
                    assert(all.take(index + 1) =~= all.take(index as int).push(all[index as int]));
                }
                index = index + 1;
            }
            assert(tensors@ =~= cut(bank.tensors@, experts));
            let bytes: usize = sum_tensors(&tensors);
            Ok((ExpertBank { num_experts: experts as i32, tensors }, bytes))
        },
    }
}

/// Bytes of banks together.
pub open spec fn banks_bytes(banks: Seq<ExpertBank>) -> int
    decreases banks.len(),
{
    if banks.len() == 0 {
        0
    } else {
        banks_bytes(banks.drop_last()) + tensors_bytes(banks.last().tensors@)
    }
}

/// Why finalizing banks fails from bank `from` on, if it does.
pub open spec fn banks_failure(banks: Seq<ExpertBank>, table: Ownership, from: int) -> Option<
    Failure,
>
    decreases banks.len() - from,
{
    if from >= banks.len() {
        None
    } else if bank_failure(banks[from], table) is Some {
        bank_failure(banks[from], table)
    } else {
        banks_failure(banks, table, from + 1)
    }
}

/// Whether a bank is what finalizing another leaves.
pub open spec fn is_finalized(local: ExpertBank, bank: ExpertBank, table: Ownership) -> bool {
    &&& local.num_experts == table.local_experts().len()
    &&& local.tensors@ == finalized(bank, table)
}

/// Banks together take at least what the first of them take.
pub proof fn banks_bytes_grow(banks: Seq<ExpertBank>, length: int)
    requires
        0 <= length <= banks.len(),
    ensures
        0 <= banks_bytes(banks.take(length)) <= banks_bytes(banks),
    decreases banks.len(),
{
    if length == banks.len() {
        assert(banks.take(length) =~= banks);
    }
    if banks.len() > 0 {
        let tensors = banks.last().tensors@;
        tensors_bytes_grow(tensors, tensors.len() as int);
        assert(tensors.take(tensors.len() as int) =~= tensors);
        if length == banks.len() {
            banks_bytes_grow(banks.drop_last(), length - 1);
            assert(banks.drop_last().take(length - 1) =~= banks.drop_last());
        } else {
            banks_bytes_grow(banks.drop_last(), length);
            assert(banks.drop_last().take(length) =~= banks.take(length));
        }
    }
}

/// Finalizes the banks of all layers and adds up the bytes that they then take.
pub fn finalize_expert_banks(banks: Vec<ExpertBank>, assignment: &ExpertAssignment) -> (outcome: Result<
    (Vec<ExpertBank>, usize),
    Error,
>)
    requires
        forall|i: int| 0 <= i < banks@.len() ==> bank_wf(#[trigger] banks@[i]),
        banks_bytes(banks@) <= usize::MAX,
    ensures
        crate::error::failed(outcome) == banks_failure(banks@, assignment@, 0),
        outcome matches Ok((local, bytes)) ==> {
            &&& local@.len() == banks@.len()
            &&& forall|i: int|
                0 <= i < local@.len() ==> is_finalized(
                    #[trigger] local@[i],
                    banks@[i],
                    assignment@,
                )
            &&& bytes == banks_bytes(local@)
            &&& bytes <= banks_bytes(banks@)
        },
{
    let ghost all = banks@;
    let mut local: Vec<ExpertBank> = Vec::new();
    let mut bytes: usize = 0;
    for bank in walk: banks
        invariant
            walk.seq() == all,
            forall|i: int| 0 <= i < all.len() ==> bank_wf(#[trigger] all[i]),
            banks_bytes(all) <= usize::MAX,
            banks_failure(all, assignment@, 0) == banks_failure(
                all,
                assignment@,
                walk.index() as int,
            ),
            local@.len() == walk.index(),
            forall|i: int|
                0 <= i < local@.len() ==> is_finalized(#[trigger] local@[i], all[i], assignment@),
            bytes == banks_bytes(local@),
            bytes <= banks_bytes(all.take(walk.index() as int)),
    {
        let ghost before = local@;
        proof {
            let taken = walk.index() as int;
            assert(bank == all[taken]);
            assert(all.take(taken + 1).drop_last() =~= all.take(taken));
            banks_bytes_grow(all, taken + 1);
        }
        match finalize_expert_bank(bank, assignment) {
            Ok((kept, size)) => {
                bytes = bytes + size;
                local.push(kept);
                assert(local@.drop_last() =~= before);
            },
            Err(error) => {
                return Err(error);
            },
        }
    }
    assert(all.take(all.len() as int) =~= all);
    Ok((local, bytes))
}

/// The names of the two quantized projections of each layer's expert bank, in order.
pub open spec fn projection_keys(layers: int) -> Seq<Seq<char>>
    decreases layers,
{
    if layers <= 0 {
        Seq::empty()
    } else {
        let bank = "model.layers."@ + crate::text::signed_decimal(layers - 1) + ".mlp.experts."@;
        projection_keys(layers - 1).push(bank + "gate_up_proj"@).push(bank + "down_proj"@)
    }
}

/// The first of the keys that is not among the names.
pub open spec fn first_missing(keys: Seq<Seq<char>>, names: Seq<Seq<char>>, from: int) -> Option<
    Seq<char>,
>
    decreases keys.len() - from,
{
    if from >= keys.len() {
        None
    } else if !names.contains(keys[from]) {
        Some(keys[from])
    } else {
        first_missing(keys, names, from + 1)
    }
}

/// Lists the names of the two quantized projections of each layer's expert bank.
pub fn quantized_bank_keys(num_hidden_layers: i32) -> (keys: Vec<String>)
    ensures
        crate::error::texts(keys@) == projection_keys(num_hidden_layers as int),
{
    let mut keys: Vec<String> = Vec::new();
    let mut layer: i32 = 0;
    assert(crate::error::texts(keys@) =~= projection_keys(0));
    while layer < num_hidden_layers
        invariant
            0 <= layer,
            layer <= num_hidden_layers || layer == 0,
            crate::error::texts(keys@) == projection_keys(layer as int),
        decreases num_hidden_layers - layer,
    {
        let ghost before = keys@;
        let mut bank = "model.layers.".to_owned();
        bank.append(signed_text(layer as i64).as_str());
        bank.append(".mlp.experts.");
        let mut first = bank.clone();
        first.append("gate_up_proj");
        let mut second = bank;
        second.append("down_proj");
        let ghost pair = (first@, second@);
        keys.push(first);
        keys.push(second);
        proof {
            assert(crate::error::texts(keys@) =~= crate::error::texts(before).push(pair.0).push(
                pair.1,
            ));
        }
        layer = layer + 1;
    }
    keys
}

/// Checks that the expert banks to quantize are all there: those of every layer, in
/// order. Lists their names.
pub fn quantize_qwen3_local_experts(names: &Vec<String>, num_hidden_layers: i32) -> (outcome:
    Result<Vec<String>, Error>)
    ensures
        crate::error::failed(outcome) == (match first_missing(
            projection_keys(num_hidden_layers as int),
            crate::error::texts(names@),
            0,
        ) {
            Some(key) => Some(Failure::StrictLoadValidation(seq![key], Seq::empty())),
            None => None,
        }),
        outcome matches Ok(keys) ==> crate::error::texts(keys@) == projection_keys(
            num_hidden_layers as int,
        ),
{
    let keys = quantized_bank_keys(num_hidden_layers);
    let ghost wanted = crate::error::texts(keys@);
    let ghost known = crate::error::texts(names@);
    let mut index: usize = 0;
    while index < keys.len()
        invariant
            index <= keys@.len(),
            wanted == crate::error::texts(keys@),
            wanted == projection_keys(num_hidden_layers as int),
            known == crate::error::texts(names@),
            first_missing(wanted, known, 0) == first_missing(wanted, known, index as int),
        decreases keys@.len() - index,
    {
        let mut found: bool = false;
        let mut other: usize = 0;
        while other < names.len() && !found
            invariant
                other <= names@.len(),
                index < keys@.len(),
                wanted == crate::error::texts(keys@),
                known == crate::error::texts(names@),
                found ==> known.contains(wanted[index as int]),
                !found ==> forall|i: int| 0 <= i < other ==> #[trigger] known[i] != wanted[index as int],
            decreases names@.len() - other + (if found { 0int } else { 1int }),
        {
            if names[other] == keys[index] {
                found = true;
                assert(known[other as int] == wanted[index as int]);
            } else {
                other = other + 1;
            }
        }
        if !found {
            let mut missing: Vec<String> = Vec::new();
            missing.push(keys[index].clone());
            let unused: Vec<String> = Vec::new();
            assert(crate::error::texts(missing@) =~= seq![wanted[index as int]]);
            assert(crate::error::texts(unused@) =~= Seq::empty());
            return Err(Error::StrictLoadValidation { missing, unused });
        }
        index = index + 1;
    }
    Ok(keys)
}

/// The names that a quantized bank puts in place of its key: the weights under the key
/// itself, their scales, and their biases where it has them.
pub fn quantized_names(key: &str, biases: bool) -> (names: Vec<String>)
    ensures
        crate::error::texts(names@) == (if biases {
            seq![key@, key@ + "_scales"@, key@ + "_biases"@]
        } else {
            seq![key@, key@ + "_scales"@]
        }),
{
    let mut names: Vec<String> = Vec::new();
    names.push(key.to_owned());
    let mut scales = key.to_owned();
    scales.append("_scales");
    names.push(scales);
    if biases {
        let mut text = key.to_owned();
        text.append("_biases");
        names.push(text);
        assert(crate::error::texts(names@) =~= seq![key@, key@ + "_scales"@, key@ + "_biases"@]);
    } else {
        assert(crate::error::texts(names@) =~= seq![key@, key@ + "_scales"@]);
    }
    names
}

/// What the compact bank of an architecture holds: its projections, which every bank has,
/// and the scales and biases that quantized checkpoints add to them.
pub proof fn banks_hold_their_projections(kind: ModelKind, name: Seq<char>)
    ensures
        kind is DeepSeekV3 ==> (bank_layout(kind).contains((name, true)) <==> (name == "gate_proj"@
            || name == "up_proj"@
            || name == "down_proj"@)),
        kind is DeepSeekV3 ==> (bank_layout(kind).contains((name, false)) <==> (name == "gate_proj_scale_inv"@
            || name == "gate_proj_scales"@
            || name == "gate_proj_biases"@
            || name == "up_proj_scale_inv"@
            || name == "up_proj_scales"@
            || name == "up_proj_biases"@
            || name == "down_proj_scale_inv"@
            || name == "down_proj_scales"@
            || name == "down_proj_biases"@)),
        kind is DeepSeekV3 ==> bank_layout(kind).len() == 12,
        kind is GptOss ==> (bank_layout(kind).contains((name, true)) <==> (name == "gate_up_proj_blocks"@
            || name == "gate_up_proj_scales"@
            || name == "gate_up_proj_bias"@
            || name == "down_proj_blocks"@
            || name == "down_proj_scales"@
            || name == "down_proj_bias"@)),
        kind is GptOss ==> !bank_layout(kind).contains((name, false)),
        kind is GptOss ==> bank_layout(kind).len() == 6,
        kind is Inkling ==> (bank_layout(kind).contains((name, true)) <==> (name == "gate_up_proj"@
            || name == "down_proj"@)),
        kind is Inkling ==> !bank_layout(kind).contains((name, false)),
        kind is Inkling ==> bank_layout(kind).len() == 2,
        kind is NemotronH ==> (bank_layout(kind).contains((name, true)) <==> (name == "up_proj"@
            || name == "down_proj"@)),
        kind is NemotronH ==> (bank_layout(kind).contains((name, false)) <==> (name == "up_proj_scales"@
            || name == "up_proj_biases"@
            || name == "down_proj_scales"@
            || name == "down_proj_biases"@)),
        kind is NemotronH ==> bank_layout(kind).len() == 6,
        (kind is Qwen3Next || kind is Qwen35Moe) ==> (bank_layout(kind).contains((name, true)) <==> (name == "gate_up_proj"@
            || name == "down_proj"@)),
        (kind is Qwen3Next || kind is Qwen35Moe) ==> (bank_layout(kind).contains((name, false)) <==> (name == "gate_up_proj_scale_inv"@
            || name == "gate_up_proj_scales"@
            || name == "gate_up_proj_biases"@
            || name == "down_proj_scale_inv"@
            || name == "down_proj_scales"@
            || name == "down_proj_biases"@)),
        (kind is Qwen3Next || kind is Qwen35Moe) ==> bank_layout(kind).len() == 8,
        (kind is Qwen3 || kind is Qwen3VlMoe || kind is Lfm2) ==> (bank_layout(kind).contains((name, true)) <==> (name == "gate_up_proj"@
            || name == "down_proj"@)),
        (kind is Qwen3 || kind is Qwen3VlMoe || kind is Lfm2) ==> (bank_layout(kind).contains((name, false)) <==> (name == "gate_up_proj_scales"@
            || name == "gate_up_proj_biases"@
            || name == "down_proj_scales"@
            || name == "down_proj_biases"@)),
        (kind is Qwen3 || kind is Qwen3VlMoe || kind is Lfm2) ==> bank_layout(kind).len() == 6,
{
    let layout = bank_layout(kind);
    assert forall|i: int| 0 <= i < layout.len() implies #[trigger] layout.contains(layout[i]) by {
    }
    if kind is DeepSeekV3 {
        assert(layout[0] == ("gate_proj"@, true));
        assert(layout[1] == ("gate_proj_scale_inv"@, false));
        assert(layout[2] == ("gate_proj_scales"@, false));
        assert(layout[3] == ("gate_proj_biases"@, false));
        assert(layout[4] == ("up_proj"@, true));
        assert(layout[5] == ("up_proj_scale_inv"@, false));
        assert(layout[6] == ("up_proj_scales"@, false));
        assert(layout[7] == ("up_proj_biases"@, false));
        assert(layout[8] == ("down_proj"@, true));
        assert(layout[9] == ("down_proj_scale_inv"@, false));
        assert(layout[10] == ("down_proj_scales"@, false));
        assert(layout[11] == ("down_proj_biases"@, false));
    }
    if kind is GptOss {
        assert(layout[0] == ("gate_up_proj_blocks"@, true));
        assert(layout[1] == ("gate_up_proj_scales"@, true));
        assert(layout[2] == ("gate_up_proj_bias"@, true));
        assert(layout[3] == ("down_proj_blocks"@, true));
        assert(layout[4] == ("down_proj_scales"@, true));
        assert(layout[5] == ("down_proj_bias"@, true));
    }
    if kind is Inkling {
        assert(layout[0] == ("gate_up_proj"@, true));
        assert(layout[1] == ("down_proj"@, true));
    }
    if kind is NemotronH {
        assert(layout[0] == ("up_proj"@, true));
        assert(layout[1] == ("up_proj_scales"@, false));
        assert(layout[2] == ("up_proj_biases"@, false));
        assert(layout[3] == ("down_proj"@, true));
        assert(layout[4] == ("down_proj_scales"@, false));
        assert(layout[5] == ("down_proj_biases"@, false));
    }
    if kind is Qwen3Next || kind is Qwen35Moe {
        assert(layout[0] == ("gate_up_proj"@, true));
        assert(layout[1] == ("gate_up_proj_scale_inv"@, false));
        assert(layout[2] == ("gate_up_proj_scales"@, false));
        assert(layout[3] == ("gate_up_proj_biases"@, false));
        assert(layout[4] == ("down_proj"@, true));
        assert(layout[5] == ("down_proj_scale_inv"@, false));
        assert(layout[6] == ("down_proj_scales"@, false));
        assert(layout[7] == ("down_proj_biases"@, false));
    }
    if kind is Qwen3 || kind is Qwen3VlMoe || kind is Lfm2 {
        assert(layout[0] == ("gate_up_proj"@, true));
        assert(layout[1] == ("gate_up_proj_scales"@, false));
        assert(layout[2] == ("gate_up_proj_biases"@, false));
        assert(layout[3] == ("down_proj"@, true));
        assert(layout[4] == ("down_proj_scales"@, false));
        assert(layout[5] == ("down_proj_biases"@, false));
    }
}

/// Every parameter of a bank is one of a routed expert, so that an expert-cached model
/// does not load it eagerly.
pub proof fn bank_parameters_are_routed(kind: ModelKind, layer: nat, name: Seq<char>)
    requires
        kind is NemotronH ==> !crate::text::occurs(
            bank_prefix(kind, layer) + "."@ + name,
            ".shared_experts."@,
        ),
    ensures
        crate::expert_parallel::placement::routed_expert(
            kind,
            bank_prefix(kind, layer) + "."@ + name,
        ),
{
    reveal_strlit("model.layers.");
    reveal_strlit("model.language_model.layers.");
    reveal_strlit(".mlp.experts");
    reveal_strlit(".moe.experts");
    reveal_strlit(".feed_forward.experts");
    reveal_strlit(".");
    reveal_strlit(".mlp.experts.");
    reveal_strlit(".experts.");
    reveal_strlit(".feed_forward.experts.");
    let key = bank_prefix(kind, layer) + "."@ + name;
    let numeral = crate::text::decimal(layer);
    if kind is Lfm2 {
        pattern_occurs(key, ".feed_forward.experts."@, (13 + numeral.len()) as int);
    } else if kind is NemotronH {
        pattern_occurs(key, ".experts."@, (17 + numeral.len()) as int);
    } else if kind is Qwen3VlMoe {
        pattern_occurs(key, ".mlp.experts."@, (28 + numeral.len()) as int);
    } else {
        pattern_occurs(key, ".mlp.experts."@, (13 + numeral.len()) as int);
        assert("model.layers."@.is_prefix_of(key));
    }
}

proof fn pattern_occurs(text: Seq<char>, pattern: Seq<char>, at: int)
    requires
        0 <= at,
        at + pattern.len() <= text.len(),
        forall|i: int| 0 <= i < pattern.len() ==> text[at + i] == #[trigger] pattern[i],
    ensures
        crate::text::occurs(text, pattern),
{
    assert(text.subrange(at, at + pattern.len()) =~= pattern);
    crate::text::found_patterns_stand(text, pattern, 0, at);
}

/// A bank is gathered exactly where there is an expert for what it needs and no optional
/// binding is given by some experts and not by others.
pub proof fn gathered_banks_are_uniform(
    layout: Seq<(Seq<char>, bool)>,
    experts: int,
    present: Seq<Seq<bool>>,
    from: int,
)
    requires
        0 <= from,
    ensures
        gather_failure(layout, experts, present, from) is None <==> forall|b: int|
            from <= b < layout.len() ==> if (#[trigger] layout[b]).1 {
                experts != 0
            } else {
                forall|e: int, f: int|
                    0 <= e < present[b].len() && 0 <= f < present[b].len() ==> (
                    #[trigger] present[b][e]) == (#[trigger] present[b][f])
            },
    decreases layout.len() - from,
{
    if from < layout.len() {
        gathered_banks_are_uniform(layout, experts, present, from + 1);
        let here = present[from];
        let mixed = here.contains(true) && here.contains(false);
        if mixed {
            let e = choose|e: int| 0 <= e < here.len() && here[e] == true;
            let f = choose|f: int| 0 <= f < here.len() && here[f] == false;
            assert(here[e] != here[f]);
        } else {
            assert forall|e: int, f: int|
                0 <= e < present[from].len() && 0 <= f < present[from].len() implies (
            #[trigger] present[from][e]) == (#[trigger] present[from][f]) by {
                assert(here.contains(here[e]) && here.contains(here[f]));
            }
        }
        let binding = layout[from];
    }
}

/// A binding is left out of a gathered bank exactly where it is optional and no expert
/// gives it.
pub proof fn given_bindings_are_gathered(
    layout: Seq<(Seq<char>, bool)>,
    present: Seq<Seq<bool>>,
    b: int,
    expert: int,
)
    requires
        0 <= b < layout.len(),
        0 <= expert < present[b].len(),
    ensures
        gathered(layout, present).len() == layout.len(),
        layout[b].1 ==> gathered(layout, present)[b],
        present[b][expert] ==> gathered(layout, present)[b],
        !layout[b].1 && (forall|e: int| 0 <= e < present[b].len() ==> !(#[trigger] present[b][e]))
            ==> !gathered(layout, present)[b],
{
}

/// A bank can be finalized exactly where it holds all experts of the model or just those
/// of this rank, and then holds one row for each expert of this rank in every tensor that
/// it had, each row as long as before.
pub proof fn finalized_banks_hold_the_local_experts(
    bank: ExpertBank,
    local: ExpertBank,
    table: Ownership,
    i: int,
)
    requires
        table.valid(),
        bank_wf(bank),
    ensures
        bank_failure(bank, table) is None <==> bank.num_experts == table.owners.len()
            || bank.num_experts == table.local_experts().len(),
        bank_failure(bank, table) is None && is_finalized(local, bank, table) ==> {
            &&& local.num_experts == table.local_experts().len()
            &&& local.tensors@.len() == bank.tensors@.len()
            &&& 0 <= i < bank.tensors@.len() ==> match bank.tensors@[i] {
                Some(tensor) => {
                    &&& local.tensors@[i] is Some
                    &&& local.tensors@[i]->Some_0.rows == table.local_experts().len()
                    &&& local.tensors@[i]->Some_0.row_bytes == tensor.row_bytes
                },
                None => local.tensors@[i] is None,
            }
        },
{
    crate::expert_parallel::assignment::local_experts_bounded(table);
    if bank_failure(bank, table) is None && is_finalized(local, bank, table) {
        let experts = table.local_experts().len() as usize;
        if is_global(bank, table) {
            assert(local.tensors@.len() == bank.tensors@.len());
        }
        if 0 <= i < bank.tensors@.len() {
            let tensor = bank.tensors@[i];
            assert(cut(bank.tensors@, experts)[i] == match tensor {
                Some(tensor) => Some(BankTensor { rows: experts, ..tensor }),
                None => None,
            });
        }
    }
}

/// Banks are finalized together exactly where each of them can be.
pub proof fn banks_are_finalized_together(banks: Seq<ExpertBank>, table: Ownership, from: int)
    requires
        0 <= from,
    ensures
        banks_failure(banks, table, from) is None <==> forall|b: int|
            from <= b < banks.len() ==> bank_failure(#[trigger] banks[b], table) is None,
    decreases banks.len() - from,
{
    if from < banks.len() {
        banks_are_finalized_together(banks, table, from + 1);
        let here = banks[from];
    }
}

/// Bytes of tensors add up: a tensor has its rows' bytes, a missing one has none, and two
/// lists of tensors have together what each of them has.
pub proof fn tensor_bytes_add_up(
    left: Seq<Option<BankTensor>>,
    right: Seq<Option<BankTensor>>,
    tensor: BankTensor,
)
    ensures
        tensors_bytes(Seq::<Option<BankTensor>>::empty()) == 0,
        tensors_bytes(seq![Some(tensor)]) == tensor.rows * tensor.row_bytes,
        tensors_bytes(seq![None::<BankTensor>]) == 0,
        tensors_bytes(left + right) == tensors_bytes(left) + tensors_bytes(right),
    decreases right.len(),
{
    reveal_with_fuel(tensors_bytes, 2);
    assert(seq![Some(tensor)].drop_last() =~= Seq::<Option<BankTensor>>::empty());
    assert(seq![None::<BankTensor>].drop_last() =~= Seq::<Option<BankTensor>>::empty());
    if right.len() == 0 {
        assert(left + right =~= left);
    } else {
        tensor_bytes_add_up(left, right.drop_last(), tensor);
        assert((left + right).drop_last() =~= left + right.drop_last());
    }
}

/// Bytes of banks add up.
pub proof fn bank_bytes_add_up(left: Seq<ExpertBank>, right: Seq<ExpertBank>, bank: ExpertBank)
    ensures
        banks_bytes(Seq::<ExpertBank>::empty()) == 0,
        banks_bytes(seq![bank]) == tensors_bytes(bank.tensors@),
        banks_bytes(left + right) == banks_bytes(left) + banks_bytes(right),
    decreases right.len(),
{
    reveal_with_fuel(banks_bytes, 2);
    assert(seq![bank].drop_last() =~= Seq::<ExpertBank>::empty());
    if right.len() == 0 {
        assert(left + right =~= left);
    } else {
        bank_bytes_add_up(left, right.drop_last(), bank);
        assert((left + right).drop_last() =~= left + right.drop_last());
    }
}

/// Local quantization looks at the two projections of every layer, layer by layer.
pub proof fn both_projections_of_every_layer_are_quantized(layers: int, layer: int)
    requires
        0 <= layer < layers,
    ensures
        projection_keys(layers).len() == 2 * layers,
        projection_keys(layers)[2 * layer] == "model.layers."@ + crate::text::decimal(layer as nat)
            + ".mlp.experts."@ + "gate_up_proj"@,
        projection_keys(layers)[2 * layer + 1] == "model.layers."@ + crate::text::decimal(
            layer as nat,
        ) + ".mlp.experts."@ + "down_proj"@,
    decreases layers,
{
    reveal_with_fuel(projection_keys, 2);
    if layer < layers - 1 {
        both_projections_of_every_layer_are_quantized(layers - 1, layer);
    } else if layers > 1 {
        both_projections_of_every_layer_are_quantized(layers - 1, layer - 1);
    } else {
        assert(projection_keys(0) == Seq::<Seq<char>>::empty());
    }
}

/// The key that is missed is the first one that is not among the names; none is missed
/// exactly where all of them are.
pub proof fn the_first_missing_key_is_missed(keys: Seq<Seq<char>>, names: Seq<Seq<char>>, from: int)
    requires
        0 <= from,
    ensures
        first_missing(keys, names, from) is None <==> forall|k: int|
            from <= k < keys.len() ==> names.contains(#[trigger] keys[k]),
        first_missing(keys, names, from) matches Some(key) ==> exists|k: int|
            {
                &&& from <= k < keys.len()
                &&& #[trigger] keys[k] == key
                &&& !names.contains(key)
                &&& forall|j: int| from <= j < k ==> names.contains(#[trigger] keys[j])
            },
    decreases keys.len() - from,
{
    if from < keys.len() {
        the_first_missing_key_is_missed(keys, names, from + 1);
        let here = keys[from];
        if first_missing(keys, names, from) is Some && names.contains(here) {
            let key = first_missing(keys, names, from)->Some_0;
            let k = choose|k: int|
                {
                    &&& from + 1 <= k < keys.len()
                    &&& #[trigger] keys[k] == key
                    &&& !names.contains(key)
                    &&& forall|j: int| from + 1 <= j < k ==> names.contains(#[trigger] keys[j])
                };
            assert(keys[k] == key);
            assert forall|j: int| from <= j < k implies names.contains(#[trigger] keys[j]) by {
            }
        }
    }
}

} // verus!
