//! Layer-by-layer execution of DeepSeek-V3 and DeepSeek-R1 checkpoints.

use vstd::prelude::*;
use vstd::string::StringExecFns;

use crate::cache::{CompressedLatentCache, LatentArray};
use crate::error::{Error, Failure};
use crate::expert_parallel::loading::unused_layer_prefixes;
use crate::layerwise::{
    add_recipe, add_unit, find_key, has_key, numbered_prefix, numbered_unit_name, CheckpointKey,
    ModuleParameter, NamedRecipe, Recipe, StaticUnit, WeightRecipe,
};
use crate::text::{same_text, signed_text, starts_with, usize_text};

verus! {

/// Unit of the token embedding.
pub const EMBEDDING_UNIT: &'static str = "deepseek_v3.static.embedding";

/// Unit of the final normalization.
pub const NORM_UNIT: &'static str = "deepseek_v3.static.norm";

/// Unit of the output projection.
pub const HEAD_UNIT: &'static str = "deepseek_v3.static.output";

/// Adapter for compressed MLA and mixed dense/MoE DeepSeek decoder blocks: what its
/// decisions read of the architecture.
#[derive(Debug, Clone, Copy, PartialEq, Eq, Structural)]
pub struct DeepSeekV3LayerwiseAdapter {
    /// Decoder layers.
    pub num_hidden_layers: i32,
    /// Routed experts of a layer.
    pub n_routed_experts: i32,
    /// Layers behind the decoder that predict further tokens.
    pub num_nextn_predict_layers: i32,
}

/// The projection and component that a packed expert parameter consists of: the first
/// that fits, projections before components.
pub open spec fn expert_parts(name: Seq<char>) -> Option<(Seq<char>, Seq<char>)> {
    if bank_parts(name, "gate_proj"@) is Some {
        bank_parts(name, "gate_proj"@)
    } else if bank_parts(name, "up_proj"@) is Some {
        bank_parts(name, "up_proj"@)
    } else {
        bank_parts(name, "down_proj"@)
    }
}

/// The component of a packed parameter of one projection.
pub open spec fn bank_parts(name: Seq<char>, projection: Seq<char>) -> Option<(Seq<char>, Seq<char>)> {
    let stem = "mlp.experts."@ + projection;
    if name == stem + ""@ {
        Some((projection, "weight"@))
    } else if name == stem + "_scale_inv"@ {
        Some((projection, "weight_scale_inv"@))
    } else if name == stem + "_scales"@ {
        Some((projection, "scales"@))
    } else if name == stem + "_biases"@ {
        Some((projection, "biases"@))
    } else {
        None
    }
}

fn is_bank_name(name: &str, projection: &str, suffix: &str) -> (same: bool)
    ensures
        same == (name@ == "mlp.experts."@ + projection@ + suffix@),
{
    let mut text = "mlp.experts.".to_owned();
    text.append(projection);
    text.append(suffix);
    same_text(name, text.as_str())
}

fn bank_component(name: &str, projection: &str) -> (component: Option<String>)
    ensures
        match component {
            Some(component) => bank_parts(name@, projection@) == Some((projection@, component@)),
            None => bank_parts(name@, projection@) is None,
        },
{
    if is_bank_name(name, projection, "") {
        Some("weight".to_owned())
    } else if is_bank_name(name, projection, "_scale_inv") {
        Some("weight_scale_inv".to_owned())
    } else if is_bank_name(name, projection, "_scales") {
        Some("scales".to_owned())
    } else if is_bank_name(name, projection, "_biases") {
        Some("biases".to_owned())
    } else {
        None
    }
}

/// Returns the projection and component of a packed expert parameter, if it is one.
pub fn expert_destination(local_name: &str) -> (parts: Option<(String, String)>)
    ensures
        match parts {
            Some((projection, component)) => expert_parts(local_name@) == Some(
                (projection@, component@),
            ),
            None => expert_parts(local_name@) is None,
        },
{
    match bank_component(local_name, "gate_proj") {
        Some(component) => {
            return Some(("gate_proj".to_owned(), component));
        },
        None => {},
    }
    match bank_component(local_name, "up_proj") {
        Some(component) => {
            return Some(("up_proj".to_owned(), component));
        },
        None => {},
    }
    match bank_component(local_name, "down_proj") {
        Some(component) => Some(("down_proj".to_owned(), component)),
        None => None,
    }
}

/// What becomes of a parameter: its own key is there, it has a recipe, or it cannot be
/// had.
pub enum ParameterPlan {
    Direct,
    Derived(Recipe),
    Missing(Failure),
}

/// The runtime name of one expert's tensor.
pub open spec fn split_tensor(
    layer: Seq<char>,
    expert: int,
    projection: Seq<char>,
    component: Seq<char>,
) -> Seq<char> {
    layer + ".mlp.experts."@ + crate::text::signed_decimal(expert) + "."@ + projection + "."@
        + component
}

/// The keys of the first `count` experts' tensors, as far as the checkpoint has them.
pub open spec fn split_keys(
    keys: Seq<CheckpointKey>,
    layer: Seq<char>,
    projection: Seq<char>,
    component: Seq<char>,
    count: int,
) -> Seq<Seq<char>>
    decreases count,
{
    if count <= 0 {
        Seq::empty()
    } else {
        let name = split_tensor(layer, count - 1, projection, component);
        let before = split_keys(keys, layer, projection, component, count - 1);
        match crate::layerwise::key_named(keys, name) {
            Some(key) => before.push(key),
            None => before,
        }
    }
}

/// The first expert from `from` on whose tensor the checkpoint lacks.
pub open spec fn first_missing_expert(
    keys: Seq<CheckpointKey>,
    layer: Seq<char>,
    projection: Seq<char>,
    component: Seq<char>,
    from: int,
    count: int,
) -> Option<int>
    decreases count - from,
{
    if from >= count {
        None
    } else if crate::layerwise::key_named(
        keys,
        split_tensor(layer, from, projection, component),
    ) is None {
        Some(from)
    } else {
        first_missing_expert(keys, layer, projection, component, from + 1, count)
    }
}

/// What becomes of one parameter of a layer.
pub open spec fn parameter_plan(
    parameter: ModuleParameter,
    layer: Seq<char>,
    keys: Seq<CheckpointKey>,
    experts: i32,
) -> ParameterPlan {
    let destination = layer + "."@ + parameter.name@;
    let names = crate::layerwise::raw_names(keys);
    if names.contains(destination) || names.contains(parameter.canonical@) {
        ParameterPlan::Direct
    } else {
        match expert_parts(parameter.name@) {
            Some((projection, component)) => match first_missing_expert(
                keys,
                layer,
                projection,
                component,
                0,
                experts as int,
            ) {
                Some(expert) => ParameterPlan::Missing(
                    Failure::UnsupportedArchitecture(
                        "DeepSeek-V3 checkpoint is missing split expert tensor "@ + split_tensor(
                            layer,
                            expert,
                            projection,
                            component,
                        ),
                    ),
                ),
                None => ParameterPlan::Derived(
                    Recipe::Stack(
                        0,
                        split_keys(keys, layer, projection, component, experts as int),
                    ),
                ),
            },
            None => match crate::layerwise::key_named(keys, destination) {
                Some(key) => ParameterPlan::Derived(Recipe::Source(key)),
                None => match crate::layerwise::key_named(keys, parameter.canonical@) {
                    Some(key) => ParameterPlan::Derived(Recipe::Source(key)),
                    None => ParameterPlan::Missing(
                        Failure::UnsupportedArchitecture(
                            "DeepSeek-V3 checkpoint is missing runtime parameter "@
                                + parameter.canonical@,
                        ),
                    ),
                },
            },
        }
    }
}

/// Why the recipes of a layer cannot be made from parameter `from` on, if they cannot.
pub open spec fn recipes_failure(
    parameters: Seq<ModuleParameter>,
    layer: Seq<char>,
    keys: Seq<CheckpointKey>,
    experts: i32,
    from: int,
) -> Option<Failure>
    decreases parameters.len() - from,
{
    if from >= parameters.len() {
        None
    } else {
        match parameter_plan(parameters[from], layer, keys, experts) {
            ParameterPlan::Missing(failure) => Some(failure),
            _ => recipes_failure(parameters, layer, keys, experts, from + 1),
        }
    }
}

/// The recipes of the parameters that need one, in order.
pub open spec fn layer_recipes(
    parameters: Seq<ModuleParameter>,
    layer: Seq<char>,
    keys: Seq<CheckpointKey>,
    experts: i32,
) -> Seq<(Seq<char>, Recipe)>
    decreases parameters.len(),
{
    if parameters.len() == 0 {
        Seq::empty()
    } else {
        let before = layer_recipes(parameters.drop_last(), layer, keys, experts);
        match parameter_plan(parameters.last(), layer, keys, experts) {
            ParameterPlan::Derived(recipe) => before.push((parameters.last().name@, recipe)),
            _ => before,
        }
    }
}

fn stack_experts(
    keys: &Vec<CheckpointKey>,
    layer: &str,
    projection: &str,
    component: &str,
    experts: i32,
) -> (outcome: Result<WeightRecipe, Error>)
    ensures
        crate::error::failed(outcome) == (match first_missing_expert(
            keys@,
            layer@,
            projection@,
            component@,
            0,
            experts as int,
        ) {
            Some(expert) => Some(
                Failure::UnsupportedArchitecture(
                    "DeepSeek-V3 checkpoint is missing split expert tensor "@ + split_tensor(
                        layer@,
                        expert,
                        projection@,
                        component@,
                    ),
                ),
            ),
            None => None,
        }),
        outcome matches Ok(recipe) ==> recipe@ == Recipe::Stack(
            0,
            split_keys(keys@, layer@, projection@, component@, experts as int),
        ),
{
    let mut inputs: Vec<String> = Vec::new();
    let mut expert: i32 = 0;
    assert(crate::error::texts(inputs@) =~= Seq::empty());
    while expert < experts
        invariant
            0 <= expert,
            expert <= experts || expert == 0,
            first_missing_expert(keys@, layer@, projection@, component@, 0, experts as int)
                == first_missing_expert(
                keys@,
                layer@,
                projection@,
                component@,
                expert as int,
                experts as int,
            ),
            crate::error::texts(inputs@) == split_keys(
                keys@,
                layer@,
                projection@,
                component@,
                expert as int,
            ),
        decreases experts - expert,
    {
        let mut runtime = layer.to_owned();
        runtime.append(".mlp.experts.");
        runtime.append(signed_text(expert as i64).as_str());
        runtime.append(".");
        runtime.append(projection);
        runtime.append(".");
        runtime.append(component);
        let ghost before = inputs@;
        match find_key(keys, runtime.as_str()) {
            Some(key) => {
                let ghost text = key@;
                inputs.push(key);
                assert(crate::error::texts(inputs@) =~= crate::error::texts(before).push(text));
            },
            None => {
                let mut text = "DeepSeek-V3 checkpoint is missing split expert tensor ".to_owned();
                text.append(runtime.as_str());
                return Err(Error::UnsupportedArchitecture(text));
            },
        }
        expert = expert + 1;
    }
    assert(split_keys(keys@, layer@, projection@, component@, experts as int) == split_keys(
        keys@,
        layer@,
        projection@,
        component@,
        expert as int,
    ));
    Ok(WeightRecipe::Stack { axis: 0, keys: inputs })
}

fn plan_parameter(
    parameter: &ModuleParameter,
    layer: &str,
    keys: &Vec<CheckpointKey>,
    experts: i32,
) -> (outcome: Result<Option<WeightRecipe>, Error>)
    ensures
        match parameter_plan(*parameter, layer@, keys@, experts) {
            ParameterPlan::Direct => outcome matches Ok(None),
            ParameterPlan::Derived(recipe) => outcome matches Ok(Some(own)) && own@ == recipe,
            ParameterPlan::Missing(failure) => outcome matches Err(error) && error@ == failure,
        },
{
    let mut destination = layer.to_owned();
    destination.append(".");
    destination.append(parameter.name.as_str());
    if has_key(keys, destination.as_str()) || has_key(keys, parameter.canonical.as_str()) {
        return Ok(None);
    }
    match expert_destination(parameter.name.as_str()) {
        Some((projection, component)) => {
            return match stack_experts(
                keys,
                layer,
                projection.as_str(),
                component.as_str(),
                experts,
            ) {
                Ok(recipe) => Ok(Some(recipe)),
                Err(error) => Err(error),
            };
        },
        None => {},
    }
    match find_key(keys, destination.as_str()) {
        Some(key) => {
            return Ok(Some(WeightRecipe::Source { key }));
        },
        None => {},
    }
    match find_key(keys, parameter.canonical.as_str()) {
        Some(key) => Ok(Some(WeightRecipe::Source { key })),
        None => {
            let mut text = "DeepSeek-V3 checkpoint is missing runtime parameter ".to_owned();
            text.append(parameter.canonical.as_str());
            Err(Error::UnsupportedArchitecture(text))
        },
    }
}

/// The prefix of a layer's parameters.
pub open spec fn layer_prefix(index: nat) -> Seq<char> {
    "model.layers."@ + crate::text::decimal(index)
}

/// Why a group is not one of the adapter's, if it is not.
pub open spec fn group_failure(group: usize) -> Option<Failure> {
    if group == 0 {
        None
    } else {
        Some(
            Failure::UnsupportedArchitecture(
                "DeepSeek-V3 decoder has no execution group "@ + crate::text::decimal(
                    group as nat,
                ),
            ),
        )
    }
}

fn check_group(group: usize) -> (outcome: Result<(), Error>)
    ensures
        crate::error::failed(outcome) == group_failure(group),
{
    if group == 0 {
        return Ok(());
    }
    let mut text = "DeepSeek-V3 decoder has no execution group ".to_owned();
    text.append(usize_text(group).as_str());
    Err(Error::UnsupportedArchitecture(text))
}

impl DeepSeekV3LayerwiseAdapter {
    /// Lists how the parameters of a layer come from the checkpoint where it does not
    /// store them under their own names: packed expert banks are stacked from the tensors
    /// of single experts, and other parameters are looked up by canonical name.
    pub fn recipes_for_layer(
        &self,
        index: usize,
        parameters: &Vec<ModuleParameter>,
        keys: &Vec<CheckpointKey>,
    ) -> (outcome: Result<Vec<NamedRecipe>, Error>)
        ensures
            crate::error::failed(outcome) == recipes_failure(
                parameters@,
                layer_prefix(index as nat),
                keys@,
                self.n_routed_experts,
                0,
            ),
            outcome matches Ok(recipes) ==> crate::layerwise::recipe_list(recipes@)
                == layer_recipes(
                parameters@,
                layer_prefix(index as nat),
                keys@,
                self.n_routed_experts,
            ),
    {
        let prefix = self.layer_checkpoint_prefix(index);
        let ghost layer = layer_prefix(index as nat);
        let experts: i32 = self.n_routed_experts;
        let mut recipes: Vec<NamedRecipe> = Vec::new();
        let mut at: usize = 0;
        assert(parameters@.take(0).len() == 0);
        assert(crate::layerwise::recipe_list(recipes@) =~= Seq::empty());
        while at < parameters.len()
            invariant
                at <= parameters@.len(),
                prefix@ == layer,
                layer == layer_prefix(index as nat),
                experts == self.n_routed_experts,
                recipes_failure(parameters@, layer, keys@, experts, 0) == recipes_failure(
                    parameters@,
                    layer,
                    keys@,
                    experts,
                    at as int,
                ),
                crate::layerwise::recipe_list(recipes@) == layer_recipes(
                    parameters@.take(at as int),
                    layer,
                    keys@,
                    experts,
                ),
            decreases parameters@.len() - at,
        {
            proof {
                assert(parameters@.take(at + 1).drop_last() =~= parameters@.take(at as int));
            }
            match plan_parameter(&parameters[at], prefix.as_str(), keys, experts) {
                Ok(Some(recipe)) => {
                    add_recipe(&mut recipes, parameters[at].name.clone(), recipe);
                },
                Ok(None) => {},
                Err(error) => {
                    return Err(error);
                },
            }
            at = at + 1;
        }
        assert(parameters@.take(at as int) =~= parameters@);
        Ok(recipes)
    }

    /// Lists the modules that stay resident.
    pub fn static_units(&self) -> (units: Vec<StaticUnit>)
        ensures
            crate::layerwise::unit_layout(units@) == seq![
                (EMBEDDING_UNIT@, "model.embed_tokens"@),
                (NORM_UNIT@, "model.norm"@),
                (HEAD_UNIT@, "lm_head"@),
            ],
    {
        let mut units: Vec<StaticUnit> = Vec::new();
        assert(crate::layerwise::unit_layout(units@) =~= Seq::empty());
        add_unit(&mut units, EMBEDDING_UNIT, "model.embed_tokens");
        add_unit(&mut units, NORM_UNIT, "model.norm");
        add_unit(&mut units, HEAD_UNIT, "lm_head");
        assert(crate::layerwise::unit_layout(units@) =~= seq![
            (EMBEDDING_UNIT@, "model.embed_tokens"@),
            (NORM_UNIT@, "model.norm"@),
            (HEAD_UNIT@, "lm_head"@),
        ]);
        units
    }

    /// Checks that so many leases populate the static units, one each and in order.
    pub fn populate_static(&self, leases: usize) -> (outcome: Result<(), Error>)
        ensures
            crate::error::failed(outcome) == (if leases != 3 {
                Some(
                    Failure::UnsupportedArchitecture(
                        "DeepSeek-V3 adapter received "@ + crate::text::decimal(leases as nat)
                            + " static leases, expected 3"@,
                    ),
                )
            } else {
                None
            }),
    {
        if leases != 3 {
            let mut text = "DeepSeek-V3 adapter received ".to_owned();
            text.append(usize_text(leases).as_str());
            text.append(" static leases, expected 3");
            return Err(Error::UnsupportedArchitecture(text));
        }
        Ok(())
    }

    /// Checks the layers of a cache. One without layers is replaced by a new one first.
    pub fn validate_cache<R: Copy>(&self, cache: &mut Vec<CompressedLatentCache<R>>) -> (outcome:
        Result<(), Error>)
        requires
            old(cache)@.len() == 0 ==> self.num_hidden_layers >= 0,
        ensures
            old(cache)@.len() > 0 ==> *final(cache) == *old(cache),
            old(cache)@.len() == 0 ==> is_new_cache(final(cache)@, self.num_hidden_layers as nat),
            crate::error::failed(outcome) == (if old(cache)@.len() > 0 && old(cache)@.len()
                != self.num_hidden_layers {
                Some(
                    Failure::UnsupportedArchitecture(
                        "DeepSeek-V3 cache has "@ + crate::text::decimal(old(cache)@.len())
                            + " layers, expected "@ + crate::text::signed_decimal(
                            self.num_hidden_layers as int,
                        ),
                    ),
                )
            } else {
                None
            }),
    {
        if cache.len() == 0 {
            *cache = self.new_cache();
        }
        if self.num_hidden_layers < 0 || cache.len() != self.num_hidden_layers as usize {
            let mut text = "DeepSeek-V3 cache has ".to_owned();
            text.append(usize_text(cache.len()).as_str());
            text.append(" layers, expected ");
            text.append(signed_text(self.num_hidden_layers as i64).as_str());
            return Err(Error::UnsupportedArchitecture(text));
        }
        Ok(())
    }

    /// Creates one compressed MLA cache per decoder block.
    pub fn new_cache<R: Copy>(&self) -> (cache: Vec<CompressedLatentCache<R>>)
        requires
            self.num_hidden_layers >= 0,
        ensures
            is_new_cache(cache@, self.num_hidden_layers as nat),
    {
        let mut cache: Vec<CompressedLatentCache<R>> = Vec::new();
        let count: usize = self.num_hidden_layers as usize;
        let mut layer: usize = 0;
        while layer < count
            invariant
                layer <= count,
                is_new_cache(cache@, layer as nat),
            decreases count - layer,
        {
            cache.push(CompressedLatentCache::new());
            layer = layer + 1;
        }
        cache
    }

    /// Answers whether a forward pass needs a causal mask: several new tokens behind
    /// cached ones.
    pub fn needs_mask(&self, tokens: i32, offset: i32) -> (masked: bool)
        ensures
            masked == (tokens > 1 && offset > 0),
    {
        tokens > 1 && offset > 0
    }

    /// Number of execution groups.
    pub fn execution_group_count(&self) -> (count: usize)
        ensures
            count == 1,
    {
        1
    }

    /// Returns the identity of an execution group.
    pub fn execution_group_id(&self, group: usize) -> (outcome: Result<String, Error>)
        ensures
            crate::error::failed(outcome) == group_failure(group),
            outcome matches Ok(id) ==> id@ == "text_decoder"@,
    {
        match check_group(group) {
            Ok(_) => Ok("text_decoder".to_owned()),
            Err(error) => Err(error),
        }
    }

    /// Returns the number of layers of an execution group.
    pub fn layer_count(&self, group: usize) -> (outcome: Result<usize, Error>)
        requires
            self.num_hidden_layers >= 0,
        ensures
            crate::error::failed(outcome) == group_failure(group),
            outcome matches Ok(count) ==> count == self.num_hidden_layers,
    {
        match check_group(group) {
            Ok(_) => Ok(self.num_hidden_layers as usize),
            Err(error) => Err(error),
        }
    }

    /// Returns the prefix of a layer's checkpoint keys.
    pub fn layer_checkpoint_prefix(&self, index: usize) -> (prefix: String)
        ensures
            prefix@ == layer_prefix(index as nat),
    {
        numbered_prefix("model.layers.", index)
    }

    /// Returns the name of a layer's unit.
    pub fn layer_unit_name(&self, index: usize) -> (name: String)
        ensures
            name@ == crate::layerwise::numbered_unit("deepseek_v3.layer."@, index as nat),
    {
        numbered_unit_name("deepseek_v3.layer.", index)
    }

    /// Returns the cached arrays of a layer that have to be materialized before its
    /// weights are released.
    pub fn retained_arrays<'a, R: Copy>(&self, cache: &'a CompressedLatentCache<R>) -> (arrays: Vec<
        &'a LatentArray<R>,
    >)
        ensures
            match (cache.latent, cache.rotary_key) {
                (Some(latent), Some(rotary_key)) => arrays@.len() == 2 && *arrays@[0] == latent
                    && *arrays@[1] == rotary_key,
                _ => arrays@.len() == 0,
            },
    {
        let mut arrays: Vec<&'a LatentArray<R>> = Vec::new();
        match cache.arrays() {
            Some((latent, rotary_key)) => {
                arrays.push(latent);
                arrays.push(rotary_key);
            },
            None => {},
        }
        arrays
    }

    /// Answers whether a checkpoint key belongs to a layer behind the decoder.
    pub fn ignores_checkpoint_key(&self, key: &str) -> (ignored: bool)
        requires
            self.num_hidden_layers + self.num_nextn_predict_layers <= i32::MAX,
        ensures
            ignored == exists|i: int|
                0 <= i < self.num_nextn_predict_layers && (#[trigger] nextn_prefix(
                    self.num_hidden_layers as int,
                    i,
                )).is_prefix_of(key@),
    {
        let prefixes = unused_layer_prefixes(self.num_hidden_layers, self.num_nextn_predict_layers);
        let ghost all = crate::error::texts(prefixes@);
        let mut index: usize = 0;
        while index < prefixes.len()
            invariant
                index <= prefixes@.len() == all.len(),
                all == crate::error::texts(prefixes@),
                all == crate::expert_parallel::loading::unused_prefixes(
                    self.num_hidden_layers as int,
                    self.num_nextn_predict_layers as int,
                ),
                forall|i: int| 0 <= i < index ==> !(#[trigger] all[i]).is_prefix_of(key@),
            decreases prefixes@.len() - index,
        {
            assert(all[index as int] == prefixes@[index as int]@);
            if starts_with(key, prefixes[index].as_str()) {
                assert(all[index as int] == nextn_prefix(
                    self.num_hidden_layers as int,
                    index as int,
                ));
                return true;
            }
            index = index + 1;
        }
        proof {
            assert forall|i: int| 0 <= i < self.num_nextn_predict_layers implies !(
            #[trigger] nextn_prefix(self.num_hidden_layers as int, i)).is_prefix_of(key@) by {
                assert(all[i] == nextn_prefix(self.num_hidden_layers as int, i));
            }
        }
        false
    }
}

/// The prefix of the keys of a layer behind the first `layers` ones.
pub open spec fn nextn_prefix(layers: int, behind: int) -> Seq<char> {
    "model.layers."@ + crate::text::signed_decimal(layers + behind) + "."@
}

/// Whether a cache consists of so many empty layers.
pub open spec fn is_new_cache<R: Copy>(cache: Seq<CompressedLatentCache<R>>, layers: nat) -> bool {
    &&& cache.len() == layers
    &&& forall|i: int|
        0 <= i < cache.len() ==> (#[trigger] cache[i]) == crate::cache::empty_latent_cache::<R>()
}

/// A stacked expert bank has the tensors of all experts.
pub proof fn stacked_banks_are_complete(
    keys: Seq<CheckpointKey>,
    layer: Seq<char>,
    projection: Seq<char>,
    component: Seq<char>,
    count: int,
)
    requires
        count >= 0,
        first_missing_expert(keys, layer, projection, component, 0, count) is None,
    ensures
        split_keys(keys, layer, projection, component, count).len() == count,
{
    assert forall|expert: int| 0 <= expert < count implies (#[trigger] crate::layerwise::key_named(
        keys,
        split_tensor(layer, expert, projection, component),
    )) is Some by {
        none_is_missing(keys, layer, projection, component, 0, count, expert);
    }
    complete_below(keys, layer, projection, component, count, count);
}

proof fn none_is_missing(
    keys: Seq<CheckpointKey>,
    layer: Seq<char>,
    projection: Seq<char>,
    component: Seq<char>,
    from: int,
    count: int,
    expert: int,
)
    requires
        first_missing_expert(keys, layer, projection, component, from, count) is None,
        from <= expert < count,
    ensures
        crate::layerwise::key_named(keys, split_tensor(layer, expert, projection, component))
            is Some,
    decreases count - from,
{
    if from < expert {
        none_is_missing(keys, layer, projection, component, from + 1, count, expert);
    }
}

proof fn complete_below(
    keys: Seq<CheckpointKey>,
    layer: Seq<char>,
    projection: Seq<char>,
    component: Seq<char>,
    below: int,
    count: int,
)
    requires
        0 <= below <= count,
        forall|expert: int|
            0 <= expert < count ==> (#[trigger] crate::layerwise::key_named(
                keys,
                split_tensor(layer, expert, projection, component),
            )) is Some,
    ensures
        split_keys(keys, layer, projection, component, below).len() == below,
    decreases below,
{
    if below > 0 {
        complete_below(keys, layer, projection, component, below - 1, count);
    }
}

/// The stem of a packed parameter tells its projection.
proof fn projection_of_bank(projection: Seq<char>, suffix: Seq<char>, component: Seq<char>)
    requires
        projection == "gate_proj"@ || projection == "up_proj"@ || projection == "down_proj"@,
        (suffix == ""@ && component == "weight"@) || (suffix == "_scale_inv"@ && component
            == "weight_scale_inv"@) || (suffix == "_scales"@ && component == "scales"@) || (suffix
            == "_biases"@ && component == "biases"@),
    ensures
        expert_parts("mlp.experts."@ + projection + suffix) == Some((projection, component)),
{
    reveal_strlit("mlp.experts.");
    reveal_strlit("gate_proj");
    reveal_strlit("up_proj");
    reveal_strlit("down_proj");
    reveal_strlit("");
    reveal_strlit("_scale_inv");
    reveal_strlit("_scales");
    reveal_strlit("_biases");
    let name = "mlp.experts."@ + projection + suffix;
    assert(name[12] == projection[0]);
    let at = 12 + projection.len();
    assert(name.skip(at as int) =~= suffix);
    if projection != "gate_proj"@ {
        foreign_bank(name, "gate_proj"@, projection);
    }
    if projection != "up_proj"@ {
        foreign_bank(name, "up_proj"@, projection);
    }
    if projection != "down_proj"@ {
        foreign_bank(name, "down_proj"@, projection);
    }
    let stem = "mlp.experts."@ + projection;
    assert((stem + ""@).skip(at as int) =~= ""@);
    assert((stem + "_scale_inv"@).skip(at as int) =~= "_scale_inv"@);
    assert((stem + "_scales"@).skip(at as int) =~= "_scales"@);
    assert((stem + "_biases"@).skip(at as int) =~= "_biases"@);
    assert("_scale_inv"@.len() == 10);
    assert("_scales"@.len() == 7);
    assert("_biases"@.len() == 7);
    assert("_scales"@[1] == 's');
    assert("_biases"@[1] == 'b');
    assert(bank_parts(name, projection) == Some((projection, component)));
}

/// A name that begins with another projection is no bank of this one.
proof fn foreign_bank(name: Seq<char>, projection: Seq<char>, own: Seq<char>)
    requires
        "mlp.experts."@.len() == 12,
        own.len() > 0,
        projection.len() > 0,
        name.len() > 12,
        name[12] == own[0],
        projection[0] != own[0],
    ensures
        bank_parts(name, projection) is None,
{
    let stem = "mlp.experts."@ + projection;
    assert((stem + ""@)[12] == projection[0]);
    assert((stem + "_scale_inv"@)[12] == projection[0]);
    assert((stem + "_scales"@)[12] == projection[0]);
    assert((stem + "_biases"@)[12] == projection[0]);
}

/// A packed parameter that the checkpoint does not store is stacked from the tensors of its
/// own projection and component, one of each expert and in their order; nothing else is
/// planned for it. The stacked keys are returned.
pub proof fn banks_are_stacked_from_their_own_projection(
    parameters: Seq<ModuleParameter>,
    at: int,
    layer: nat,
    keys: Seq<CheckpointKey>,
    experts: i32,
    projection: Seq<char>,
    suffix: Seq<char>,
    component: Seq<char>,
) -> (stacked: Seq<Seq<char>>)
    requires
        0 <= at < parameters.len(),
        experts >= 0,
        projection == "gate_proj"@ || projection == "up_proj"@ || projection == "down_proj"@,
        (suffix == ""@ && component == "weight"@) || (suffix == "_scale_inv"@ && component
            == "weight_scale_inv"@) || (suffix == "_scales"@ && component == "scales"@) || (suffix
            == "_biases"@ && component == "biases"@),
        parameters[at].name@ == "mlp.experts."@ + projection + suffix,
        forall|i: int|
            0 <= i < keys.len() ==> (#[trigger] keys[i]).raw@ != "model.layers."@
                + crate::text::decimal(layer) + "."@ + parameters[at].name@ && keys[i].raw@
                != parameters[at].canonical@,
        recipes_failure(parameters, layer_prefix(layer), keys, experts, 0) is None,
    ensures
        layer_recipes(parameters, layer_prefix(layer), keys, experts).contains(
            (parameters[at].name@, Recipe::Stack(0, stacked)),
        ),
        stacked.len() == experts,
        forall|expert: int|
            0 <= expert < experts ==> Some(#[trigger] stacked[expert])
                == crate::layerwise::key_named(
                keys,
                "model.layers."@ + crate::text::decimal(layer) + ".mlp.experts."@
                    + crate::text::decimal(expert as nat) + "."@ + projection + "."@ + component,
            ),
{
    let prefix = layer_prefix(layer);
    let parameter = parameters[at];
    projection_of_bank(projection, suffix, component);
    let names = crate::layerwise::raw_names(keys);
    assert forall|i: int| 0 <= i < names.len() implies #[trigger] names[i] != prefix + "."@
        + parameter.name@ && names[i] != parameter.canonical@ by {
        assert(names[i] == keys[i].raw@);
    }
    no_failure_at(parameters, prefix, keys, experts, 0, at);
    let stacked = split_keys(keys, prefix, projection, component, experts as int);
    stacked_banks_are_complete(keys, prefix, projection, component, experts as int);
    assert forall|expert: int| 0 <= expert < experts implies Some(#[trigger] stacked[expert])
        == crate::layerwise::key_named(
        keys,
        "model.layers."@ + crate::text::decimal(layer) + ".mlp.experts."@ + crate::text::decimal(
            expert as nat,
        ) + "."@ + projection + "."@ + component,
    ) by {
        stacked_key(keys, prefix, projection, component, experts as int, expert);
    }
    recipe_is_listed(parameters, prefix, keys, experts, at);
    stacked
}

/// A packed parameter cannot be had where the tensor of one of its experts is missing.
pub proof fn incomplete_banks_are_refused(
    parameter: ModuleParameter,
    layer: nat,
    keys: Seq<CheckpointKey>,
    experts: i32,
    projection: Seq<char>,
    suffix: Seq<char>,
    component: Seq<char>,
    expert: int,
)
    requires
        projection == "gate_proj"@ || projection == "up_proj"@ || projection == "down_proj"@,
        (suffix == ""@ && component == "weight"@) || (suffix == "_scale_inv"@ && component
            == "weight_scale_inv"@) || (suffix == "_scales"@ && component == "scales"@) || (suffix
            == "_biases"@ && component == "biases"@),
        parameter.name@ == "mlp.experts."@ + projection + suffix,
        forall|i: int|
            0 <= i < keys.len() ==> (#[trigger] keys[i]).raw@ != "model.layers."@
                + crate::text::decimal(layer) + "."@ + parameter.name@ && keys[i].raw@
                != parameter.canonical@,
        0 <= expert < experts,
        crate::layerwise::key_named(
            keys,
            "model.layers."@ + crate::text::decimal(layer) + ".mlp.experts."@
                + crate::text::decimal(expert as nat) + "."@ + projection + "."@ + component,
        ) is None,
    ensures
        parameter_plan(parameter, layer_prefix(layer), keys, experts) is Missing,
{
    let prefix = layer_prefix(layer);
    projection_of_bank(projection, suffix, component);
    let names = crate::layerwise::raw_names(keys);
    assert forall|i: int| 0 <= i < names.len() implies #[trigger] names[i] != prefix + "."@
        + parameter.name@ && names[i] != parameter.canonical@ by {
        assert(names[i] == keys[i].raw@);
    }
    if first_missing_expert(keys, prefix, projection, component, 0, experts as int) is None {
        none_is_missing(keys, prefix, projection, component, 0, experts as int, expert);
    }
}

/// A parameter that the checkpoint stores under its own name needs no recipe; another one
/// that is not packed comes whole from the key that its name, or else its canonical name,
/// leads to.
pub proof fn plain_parameters_come_from_their_own_keys(
    parameter: ModuleParameter,
    layer: nat,
    keys: Seq<CheckpointKey>,
    experts: i32,
    index: int,
)
    ensures
        ({
            let own = "model.layers."@ + crate::text::decimal(layer) + "."@ + parameter.name@;
            let plan = parameter_plan(parameter, layer_prefix(layer), keys, experts);
            &&& (0 <= index < keys.len() && (keys[index].raw@ == own || keys[index].raw@
                == parameter.canonical@)) ==> plan is Direct
            &&& (plan is Derived && !"mlp.experts."@.is_prefix_of(parameter.name@))
                ==> plan->Derived_0 == Recipe::Source(
                match crate::layerwise::key_named(keys, own) {
                    Some(key) => key,
                    None => crate::layerwise::key_named(keys, parameter.canonical@)->Some_0,
                },
            )
        }),
{
    let names = crate::layerwise::raw_names(keys);
    if 0 <= index < keys.len() {
        assert(names[index] == keys[index].raw@);
    }
    if expert_parts(parameter.name@) is Some {
        bank_names_share_a_start(parameter.name@, "gate_proj"@);
        bank_names_share_a_start(parameter.name@, "up_proj"@);
        bank_names_share_a_start(parameter.name@, "down_proj"@);
    }
}

proof fn bank_names_share_a_start(name: Seq<char>, projection: Seq<char>)
    ensures
        bank_parts(name, projection) is Some ==> "mlp.experts."@.is_prefix_of(name),
{
    let stem = "mlp.experts."@ + projection;
    let width = "mlp.experts."@.len() as int;
    assert((stem + ""@).take(width) =~= "mlp.experts."@);
    assert((stem + "_scale_inv"@).take(width) =~= "mlp.experts."@);
    assert((stem + "_scales"@).take(width) =~= "mlp.experts."@);
    assert((stem + "_biases"@).take(width) =~= "mlp.experts."@);
}

proof fn no_failure_at(
    parameters: Seq<ModuleParameter>,
    layer: Seq<char>,
    keys: Seq<CheckpointKey>,
    experts: i32,
    from: int,
    at: int,
)
    requires
        0 <= from <= at < parameters.len(),
        recipes_failure(parameters, layer, keys, experts, from) is None,
    ensures
        !(parameter_plan(parameters[at], layer, keys, experts) is Missing),
    decreases at - from,
{
    if from < at {
        no_failure_at(parameters, layer, keys, experts, from + 1, at);
    }
}

proof fn recipe_is_listed(
    parameters: Seq<ModuleParameter>,
    layer: Seq<char>,
    keys: Seq<CheckpointKey>,
    experts: i32,
    at: int,
)
    requires
        0 <= at < parameters.len(),
    ensures
        parameter_plan(parameters[at], layer, keys, experts) matches ParameterPlan::Derived(
            recipe,
        ) ==> layer_recipes(parameters, layer, keys, experts).contains(
            (parameters[at].name@, recipe),
        ),
    decreases parameters.len(),
{
    let all = layer_recipes(parameters, layer, keys, experts);
    let before = layer_recipes(parameters.drop_last(), layer, keys, experts);
    if at < parameters.len() - 1 {
        recipe_is_listed(parameters.drop_last(), layer, keys, experts, at);
        match parameter_plan(parameters[at], layer, keys, experts) {
            ParameterPlan::Derived(recipe) => {
                let i = choose|i: int|
                    0 <= i < before.len() && before[i] == (parameters[at].name@, recipe);
                assert(all[i] == before[i]);
            },
            _ => {},
        }
    } else {
        match parameter_plan(parameters[at], layer, keys, experts) {
            ParameterPlan::Derived(recipe) => {
                assert(all.last() == (parameters[at].name@, recipe));
            },
            _ => {},
        }
    }
}

proof fn stacked_key(
    keys: Seq<CheckpointKey>,
    layer: Seq<char>,
    projection: Seq<char>,
    component: Seq<char>,
    count: int,
    expert: int,
)
    requires
        0 <= expert < count,
        first_missing_expert(keys, layer, projection, component, 0, count) is None,
    ensures
        Some(split_keys(keys, layer, projection, component, count)[expert])
            == crate::layerwise::key_named(
            keys,
            layer + ".mlp.experts."@ + crate::text::decimal(expert as nat) + "."@ + projection
                + "."@ + component,
        ),
{
    assert forall|other: int| 0 <= other < count implies (#[trigger] crate::layerwise::key_named(
        keys,
        split_tensor(layer, other, projection, component),
    )) is Some by {
        none_is_missing(keys, layer, projection, component, 0, count, other);
    }
    key_below(keys, layer, projection, component, count, count, expert);
}

proof fn key_below(
    keys: Seq<CheckpointKey>,
    layer: Seq<char>,
    projection: Seq<char>,
    component: Seq<char>,
    below: int,
    count: int,
    expert: int,
)
    requires
        0 <= expert < below <= count,
        forall|other: int|
            0 <= other < count ==> (#[trigger] crate::layerwise::key_named(
                keys,
                split_tensor(layer, other, projection, component),
            )) is Some,
    ensures
        Some(split_keys(keys, layer, projection, component, below)[expert])
            == crate::layerwise::key_named(
            keys,
            split_tensor(layer, expert, projection, component),
        ),
    decreases below,
{
    complete_below(keys, layer, projection, component, below - 1, count);
    if expert < below - 1 {
        key_below(keys, layer, projection, component, below - 1, count, expert);
    }
}

/// The static part takes one lease for each of its units, and a forward pass is masked
/// exactly where several tokens follow cached ones.
pub proof fn static_units_take_one_lease_each(
    adapter: DeepSeekV3LayerwiseAdapter,
    units: Vec<StaticUnit>,
    leases: usize,
    populated: Result<(), Error>,
    tokens: i32,
    offset: i32,
    masked: bool,
)
    requires
        call_ensures(DeepSeekV3LayerwiseAdapter::static_units, (&adapter,), units),
        call_ensures(DeepSeekV3LayerwiseAdapter::populate_static, (&adapter, leases), populated),
        call_ensures(DeepSeekV3LayerwiseAdapter::needs_mask, (&adapter, tokens, offset), masked),
    ensures
        populated is Ok <==> leases == units@.len(),
        masked <==> tokens >= 2 && offset >= 1,
{
    assert(crate::layerwise::unit_layout(units@).len() == units@.len());
}

/// A cache has a compressed layer, empty at first, for each decoder layer.
pub proof fn new_caches_have_a_layer_for_each<R: Copy>(
    adapter: DeepSeekV3LayerwiseAdapter,
    cache: Vec<CompressedLatentCache<R>>,
    layer: int,
)
    requires
        adapter.num_hidden_layers >= 0,
        call_ensures(DeepSeekV3LayerwiseAdapter::new_cache::<R>, (&adapter,), cache),
    ensures
        cache@.len() == adapter.num_hidden_layers,
        0 <= layer < adapter.num_hidden_layers ==> cache@[layer].latent is None
            && cache@[layer].rotary_key is None && cache@[layer].offset == 0 && cache@[layer].length
            == 0,
{
    if 0 <= layer < adapter.num_hidden_layers {
        let here = cache@[layer];
    }
}

/// The layers that are left out of a checkpoint are those that follow the decoder's own:
/// their keys begin with the number of such a layer, and those of a model without them
/// are all taken.
pub proof fn left_out_layers_follow_the_decoder(
    adapter: DeepSeekV3LayerwiseAdapter,
    behind: int,
    key: &str,
    ignored: bool,
)
    requires
        adapter.num_hidden_layers >= 0,
        call_ensures(DeepSeekV3LayerwiseAdapter::ignores_checkpoint_key, (&adapter, key), ignored),
    ensures
        adapter.num_nextn_predict_layers <= 0 ==> !ignored,
        ignored ==> "model.layers."@.is_prefix_of(key@),
        0 <= behind ==> nextn_prefix(adapter.num_hidden_layers as int, behind) == "model.layers."@
            + crate::text::decimal((adapter.num_hidden_layers + behind) as nat) + "."@,
{
    if ignored {
        let i = choose|i: int|
            0 <= i < adapter.num_nextn_predict_layers && (#[trigger] nextn_prefix(
                adapter.num_hidden_layers as int,
                i,
            )).is_prefix_of(key@);
        let prefix = nextn_prefix(adapter.num_hidden_layers as int, i);
        let start = "model.layers."@;
        assert(start.is_prefix_of(prefix));
        assert forall|k: int| 0 <= k < start.len() implies start[k] == key@[k] by {
            assert(prefix[k] == start[k]);
            assert(key@.subrange(0, prefix.len() as int)[k] == prefix[k]);
        }
        assert(start =~= key@.subrange(0, start.len() as int));
    }
}

} // verus!
