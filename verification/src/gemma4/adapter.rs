//! What the Gemma 4 adapter consists of: static units, execution groups, layers and how
//! their parameters come from the checkpoint.

use vstd::prelude::*;
use vstd::string::StringExecFns;

use crate::error::{Error, Failure};
use crate::expert_parallel::loading::WeightResidency;
use crate::layerwise::{
    add_recipe, add_unit, find_key, has_key, numbered_prefix, numbered_unit_name, CheckpointKey,
    ModuleParameter, NamedRecipe, Recipe, StaticUnit, WeightRecipe,
};
use crate::text::{signed_text, starts_with, strip_prefix, usize_text};

verus! {

/// Unit of the token embedding.
pub const EMBEDDING_UNIT: &'static str = "gemma4.static.embedding";

/// Unit of the per-layer token embedding.
pub const PER_LAYER_EMBEDDING_UNIT: &'static str = "gemma4.static.per_layer_embedding";

/// Unit of the per-layer projection.
pub const PER_LAYER_PROJECTION_UNIT: &'static str = "gemma4.static.per_layer_projection";

/// Unit of the per-layer normalization.
pub const PER_LAYER_NORM_UNIT: &'static str = "gemma4.static.per_layer_norm";

/// Unit of the final normalization.
pub const NORM_UNIT: &'static str = "gemma4.static.norm";

/// Unit of the output projection.
pub const HEAD_UNIT: &'static str = "gemma4.static.output";

/// Unit of the vision tower's static modules.
pub const VISION_STATIC_UNIT: &'static str = "gemma4.static.vision";

/// Unit of the vision embedder.
pub const VISION_EMBED_UNIT: &'static str = "gemma4.static.vision_embed";

/// Unit of the audio tower's static modules.
pub const AUDIO_STATIC_UNIT: &'static str = "gemma4.static.audio";

/// Unit of the audio embedder.
pub const AUDIO_EMBED_UNIT: &'static str = "gemma4.static.audio_embed";

/// One leased Gemma 4 media or text unit.
#[derive(Debug)]
pub enum Gemma4Layer<V, A, T> {
    /// Vision transformer block.
    Vision(V),
    /// Audio conformer-style block.
    Audio(A),
    /// Text transformer block.
    Text(T),
}

/// What the configuration of a checkpoint says that decisions depend on.
#[derive(Debug, Clone, Copy, PartialEq, Eq, Structural)]
pub struct Gemma4Config {
    /// Hidden size of the text decoder.
    pub hidden_size: i32,
    /// Text layers.
    pub num_hidden_layers: i32,
    /// Token that stands for padding.
    pub pad_token_id: i32,
    /// Hidden size of a routed expert, where there are such.
    pub moe_intermediate_size: Option<i32>,
    /// Hidden size of the inputs that each layer gets for itself.
    pub hidden_size_per_layer_input: i32,
    /// Whether the output projection is the token embedding.
    pub tie_word_embeddings: bool,
    /// Layers of the vision tower, where there is one.
    pub vision_layers: Option<i32>,
    /// Layers of the audio tower, where there is one.
    pub audio_layers: Option<i32>,
    /// Token that stands for image content.
    pub image_token_id: Option<i32>,
    /// Token that stands for video content.
    pub video_token_id: Option<i32>,
    /// Token that stands for audio content.
    pub audio_token_id: Option<i32>,
}

/// Which of the modules for per-layer inputs a text model has.
#[derive(Debug, Clone, Copy, PartialEq, Eq, Structural)]
pub struct PerLayerModules {
    /// The token embedding.
    pub embedding: bool,
    /// The projection of hidden states.
    pub projection: bool,
    /// The normalization.
    pub norm: bool,
}

/// Adapter for Gemma 4 per-layer inputs and shared-KV attention blocks.
#[derive(Debug, Clone, Copy, PartialEq, Eq, Structural)]
pub struct Gemma4LayerwiseAdapter {
    /// The configuration.
    pub config: Gemma4Config,
    /// The modules for per-layer inputs.
    pub per_layer: PerLayerModules,
    /// Whether there is an output projection.
    pub has_head: bool,
    /// Whether there is a vision tower.
    pub has_vision: bool,
    /// Whether there is an audio tower.
    pub has_audio: bool,
    /// Layers of the vision tower.
    pub vision_depth: usize,
    /// Layers of the audio tower.
    pub audio_depth: usize,
}

/// How a checkpoint in a single quantized file is executed.
#[derive(Debug, Clone, Copy, PartialEq, Eq, Structural)]
pub enum BoundedExecution {
    /// Layers come from the host.
    LayerwiseHost(crate::offload::LayerwiseLoadOptions),
    /// Layers stream from storage.
    DenseDiskStream(crate::dense_stream::DenseDiskStreamLoadOptions),
}

/// Chooses how a checkpoint in a single quantized file is executed.
pub fn choose_gguf_execution(residency: &WeightResidency) -> (outcome: Result<
    BoundedExecution,
    Error,
>)
    ensures
        match *residency {
            WeightResidency::LayerwiseHost(options) => outcome == Ok::<BoundedExecution, Error>(
                BoundedExecution::LayerwiseHost(options),
            ),
            WeightResidency::DenseDiskStream(options) => outcome == Ok::<BoundedExecution, Error>(
                BoundedExecution::DenseDiskStream(options),
            ),
            WeightResidency::FullyResident => crate::error::failed(outcome) == Some(
                Failure::UnsupportedArchitecture(
                    "the bounded GGUF Gemma 4 loader does not accept fully resident policy"@,
                ),
            ),
            _ => crate::error::failed(outcome) == Some(
                Failure::UnsupportedArchitecture(
                    "sparse expert caching is not supported for Gemma 4 GGUF checkpoints"@,
                ),
            ),
        },
{
    match residency {
        WeightResidency::LayerwiseHost(options) => Ok(BoundedExecution::LayerwiseHost(*options)),
        WeightResidency::DenseDiskStream(options) => Ok(BoundedExecution::DenseDiskStream(*options)),
        WeightResidency::FullyResident => Err(
            Error::UnsupportedArchitecture(
                "the bounded GGUF Gemma 4 loader does not accept fully resident policy".to_owned(),
            ),
        ),
        _ => Err(
            Error::UnsupportedArchitecture(
                "sparse expert caching is not supported for Gemma 4 GGUF checkpoints".to_owned(),
            ),
        ),
    }
}

/// The prefixes that checkpoints use for the parts of the model, and those of the model.
pub open spec fn runtime_name(canonical: Seq<char>) -> Seq<char> {
    if "language_model.model."@.is_prefix_of(canonical) {
        "model.language_model."@ + canonical.skip("language_model.model."@.len() as int)
    } else if "vision_tower."@.is_prefix_of(canonical) {
        "model.vision_tower."@ + canonical.skip("vision_tower."@.len() as int)
    } else if "embed_vision."@.is_prefix_of(canonical) {
        "model.embed_vision."@ + canonical.skip("embed_vision."@.len() as int)
    } else if "audio_tower."@.is_prefix_of(canonical) {
        "model.audio_tower."@ + canonical.skip("audio_tower."@.len() as int)
    } else if "embed_audio."@.is_prefix_of(canonical) {
        "model.embed_audio."@ + canonical.skip("embed_audio."@.len() as int)
    } else {
        canonical
    }
}

fn replace_prefix(name: &str, from: &str, to: &str) -> (replaced: Option<String>)
    ensures
        match replaced {
            Some(replaced) => from@.is_prefix_of(name@) && replaced@ == to@ + name@.skip(
                from@.len() as int,
            ),
            None => !from@.is_prefix_of(name@),
        },
{
    match strip_prefix(name, from) {
        Some(rest) => {
            let mut replaced = to.to_owned();
            replaced.append(rest);
            assert(rest@ =~= name@.skip(from@.len() as int));
            Some(replaced)
        },
        None => None,
    }
}

/// Returns the name that a checkpoint name has in the model.
pub fn normalized_name(canonical: &str) -> (name: String)
    ensures
        name@ == runtime_name(canonical@),
{
    match replace_prefix(canonical, "language_model.model.", "model.language_model.") {
        Some(name) => {
            return name;
        },
        None => {},
    }
    match replace_prefix(canonical, "vision_tower.", "model.vision_tower.") {
        Some(name) => {
            return name;
        },
        None => {},
    }
    match replace_prefix(canonical, "embed_vision.", "model.embed_vision.") {
        Some(name) => {
            return name;
        },
        None => {},
    }
    match replace_prefix(canonical, "audio_tower.", "model.audio_tower.") {
        Some(name) => {
            return name;
        },
        None => {},
    }
    match replace_prefix(canonical, "embed_audio.", "model.embed_audio.") {
        Some(name) => {
            return name;
        },
        None => {},
    }
    canonical.to_owned()
}

/// The keys of a checkpoint, looked up by the names of the model.
pub open spec fn normalizes(normalized: Seq<CheckpointKey>, keys: Seq<CheckpointKey>) -> bool {
    &&& normalized.len() == keys.len()
    &&& forall|i: int|
        0 <= i < keys.len() ==> (#[trigger] normalized[i]).raw@ == keys[i].raw@
            && normalized[i].canonical@ == runtime_name(keys[i].canonical@)
}

/// Looks the keys of a checkpoint up by the names of the model.
pub fn normalized_checkpoint_keys(keys: &Vec<CheckpointKey>) -> (normalized: Vec<CheckpointKey>)
    ensures
        normalizes(normalized@, keys@),
{
    let mut normalized: Vec<CheckpointKey> = Vec::new();
    let mut index: usize = 0;
    while index < keys.len()
        invariant
            index <= keys@.len(),
            normalizes(normalized@, keys@.take(index as int)),
        decreases keys@.len() - index,
    {
        let ghost before = normalized@;
        normalized.push(
            CheckpointKey {
                raw: keys[index].raw.clone(),
                canonical: normalized_name(keys[index].canonical.as_str()),
            },
        );
        proof {
            let known = keys@.take(index + 1);
            assert forall|i: int| 0 <= i < known.len() implies (#[trigger] normalized@[i]).raw@
                == known[i].raw@ && normalized@[i].canonical@ == runtime_name(
                known[i].canonical@,
            ) by {
                if i < index {
                    assert(normalized@[i] == before[i]);
                    assert(known[i] == keys@.take(index as int)[i]);
                }
            }
        }
        index = index + 1;
    }
    assert(keys@.take(index as int) =~= keys@);
    normalized
}

/// The key that a name of the model leads to.
pub open spec fn model_key(keys: Seq<CheckpointKey>, name: Seq<char>) -> Option<Seq<char>> {
    match crate::layerwise::last_position(
        crate::layerwise::lookup_names(keys).map_values(|name: Seq<char>| runtime_name(name)),
        name,
    ) {
        Some(at) => Some(keys[at].raw@),
        None => None,
    }
}

/// The recipes of one companion of a fused expert projection, where the checkpoint has
/// it: the first half of its rows goes to the first name, the second half to the other.
pub open spec fn fused_pair(
    prefix: Seq<char>,
    suffix: Seq<char>,
    names: Seq<Seq<char>>,
    intermediate: usize,
) -> Seq<(Seq<char>, Recipe)> {
    let source = prefix + ".experts.switch_glu.gate_up_proj."@ + suffix;
    if names.contains(source) {
        seq![
            (
                "experts.switch_glu.gate_proj."@ + suffix,
                Recipe::SelectRange(source, 1, 0, intermediate),
            ),
            (
                "experts.switch_glu.up_proj."@ + suffix,
                Recipe::SelectRange(source, 1, intermediate, (2 * intermediate) as usize),
            ),
        ]
    } else {
        seq![]
    }
}

/// The recipes of fused expert projections.
pub open spec fn fused_recipes(
    prefix: Seq<char>,
    names: Seq<Seq<char>>,
    intermediate: Option<i32>,
) -> Seq<(Seq<char>, Recipe)> {
    match intermediate {
        Some(intermediate) => fused_pair(prefix, "weight"@, names, intermediate as usize)
            + fused_pair(prefix, "scales"@, names, intermediate as usize) + fused_pair(
            prefix,
            "biases"@,
            names,
            intermediate as usize,
        ),
        None => seq![],
    }
}

/// Whether a list has a recipe for a name.
pub open spec fn has_recipe(recipes: Seq<(Seq<char>, Recipe)>, name: Seq<char>) -> bool {
    exists|i: int| 0 <= i < recipes.len() && (#[trigger] recipes[i]).0 == name
}

/// The recipes of a module: first those of fused projections, then each other parameter
/// that the checkpoint stores under another name.
pub open spec fn module_recipes(
    prefix: Seq<char>,
    parameters: Seq<ModuleParameter>,
    keys: Seq<CheckpointKey>,
    intermediate: Option<i32>,
) -> Seq<(Seq<char>, Recipe)>
    decreases parameters.len(),
{
    let names = crate::layerwise::raw_names(keys);
    if parameters.len() == 0 {
        fused_recipes(prefix, names, intermediate)
    } else {
        let before = module_recipes(prefix, parameters.drop_last(), keys, intermediate);
        let parameter = parameters.last();
        let found = model_key(keys, parameter.canonical@);
        if has_recipe(before, parameter.name@) || names.contains(
            prefix + "."@ + parameter.name@,
        ) || names.contains(parameter.canonical@) || found is None {
            before
        } else {
            before.push((parameter.name@, Recipe::Cast(found->0, parameter.dtype)))
        }
    }
}

fn named(recipes: &Vec<NamedRecipe>, name: &String) -> (found: bool)
    ensures
        found == has_recipe(crate::layerwise::recipe_list(recipes@), name@),
{
    let ghost list = crate::layerwise::recipe_list(recipes@);
    let mut index: usize = 0;
    while index < recipes.len()
        invariant
            index <= recipes@.len(),
            list == crate::layerwise::recipe_list(recipes@),
            forall|i: int| 0 <= i < index ==> (#[trigger] list[i]).0 != name@,
        decreases recipes@.len() - index,
    {
        assert(list[index as int].0 == recipes@[index as int].name@);
        if recipes[index].name == *name {
            return true;
        }
        index = index + 1;
    }
    false
}

fn add_fused(
    recipes: &mut Vec<NamedRecipe>,
    prefix: &str,
    suffix: &str,
    keys: &Vec<CheckpointKey>,
    intermediate: usize,
)
    requires
        2 * intermediate <= usize::MAX,
    ensures
        crate::layerwise::recipe_list(final(recipes)@) == crate::layerwise::recipe_list(
            old(recipes)@,
        ) + fused_pair(prefix@, suffix@, crate::layerwise::raw_names(keys@), intermediate),
{
    let ghost before = crate::layerwise::recipe_list(recipes@);
    let mut source = prefix.to_owned();
    source.append(".experts.switch_glu.gate_up_proj.");
    source.append(suffix);
    if has_key(keys, source.as_str()) {
        let mut gate = "experts.switch_glu.gate_proj.".to_owned();
        gate.append(suffix);
        let mut up = "experts.switch_glu.up_proj.".to_owned();
        up.append(suffix);
        add_recipe(
            recipes,
            gate,
            WeightRecipe::SelectRange { key: source.clone(), axis: 1, start: 0, end: intermediate },
        );
        add_recipe(
            recipes,
            up,
            WeightRecipe::SelectRange {
                key: source,
                axis: 1,
                start: intermediate,
                end: 2 * intermediate,
            },
        );
    }
    assert(crate::layerwise::recipe_list(recipes@) =~= before + fused_pair(
        prefix@,
        suffix@,
        crate::layerwise::raw_names(keys@),
        intermediate,
    ));
}

/// Which part of the model a group executes.
#[derive(Debug, Clone, Copy, PartialEq, Eq, Structural)]
pub enum Gemma4Group {
    /// The vision tower.
    VisionEncoder,
    /// The audio tower.
    AudioEncoder,
    /// The text decoder.
    TextDecoder,
}

/// The identity of a group.
pub open spec fn group_text(group: Gemma4Group) -> Seq<char> {
    match group {
        Gemma4Group::VisionEncoder => "vision_encoder"@,
        Gemma4Group::AudioEncoder => "audio_encoder"@,
        Gemma4Group::TextDecoder => "text_decoder"@,
    }
}

impl Gemma4Group {
    /// Returns the identity of the group.
    pub fn as_str(&self) -> (text: &'static str)
        ensures
            text@ == group_text(*self),
    {
        match self {
            Gemma4Group::VisionEncoder => "vision_encoder",
            Gemma4Group::AudioEncoder => "audio_encoder",
            Gemma4Group::TextDecoder => "text_decoder",
        }
    }
}

/// Which attention mask a text layer uses.
#[derive(Debug, Clone, Copy, PartialEq, Eq, Structural)]
pub enum MaskChoice {
    /// The sliding-window mask.
    Sliding,
    /// The full mask.
    Full,
    /// No mask.
    Unmasked,
}

/// What ends an execution group.
#[derive(Debug, Clone, Copy, PartialEq, Eq, Structural)]
pub enum GroupFinish {
    /// Hidden states go on unchanged.
    Keep,
    /// Hidden states go on unchanged and are kept for drafting.
    RetainDraft,
    /// Encoded media and text are assembled into the decoder's input.
    Assemble,
}

/// A unit, if there is one.
pub open spec fn unit_if(
    present: bool,
    unit: Seq<char>,
    prefix: Seq<char>,
) -> Seq<(Seq<char>, Seq<char>)> {
    if present {
        seq![(unit, prefix)]
    } else {
        seq![]
    }
}

fn add_unit_if(units: &mut Vec<StaticUnit>, present: bool, unit: &str, prefix: &str)
    ensures
        crate::layerwise::unit_layout(final(units)@) == crate::layerwise::unit_layout(old(units)@)
            + unit_if(present, unit@, prefix@),
{
    let ghost before = crate::layerwise::unit_layout(units@);
    if present {
        add_unit(units, unit, prefix);
    }
    assert(crate::layerwise::unit_layout(units@) =~= before + unit_if(present, unit@, prefix@));
}

impl Gemma4LayerwiseAdapter {
    /// The adapter that a configuration describes: a head unless it is the embedding, and
    /// a tower for each medium that is configured.
    pub fn new(config: Gemma4Config, per_layer: PerLayerModules) -> (adapter: Self)
        requires
            config.vision_layers matches Some(layers) ==> layers >= 0,
            config.audio_layers matches Some(layers) ==> layers >= 0,
        ensures
            adapter.config == config,
            adapter.per_layer == per_layer,
            adapter.has_head == !config.tie_word_embeddings,
            adapter.has_vision == config.vision_layers is Some,
            adapter.has_audio == config.audio_layers is Some,
            adapter.vision_depth == (match config.vision_layers {
                Some(layers) => layers as int,
                None => 0,
            }),
            adapter.audio_depth == (match config.audio_layers {
                Some(layers) => layers as int,
                None => 0,
            }),
            adapter.wf() == (config.num_hidden_layers >= 0),
    {
        Gemma4LayerwiseAdapter {
            config,
            per_layer,
            has_head: !config.tie_word_embeddings,
            has_vision: config.vision_layers.is_some(),
            has_audio: config.audio_layers.is_some(),
            vision_depth: match config.vision_layers {
                Some(layers) => layers as usize,
                None => 0,
            },
            audio_depth: match config.audio_layers {
                Some(layers) => layers as usize,
                None => 0,
            },
        }
    }

    /// Only configured towers have layers.
    pub open spec fn wf(self) -> bool {
        &&& self.config.num_hidden_layers >= 0
        &&& self.vision_depth > 0 ==> self.has_vision
        &&& self.audio_depth > 0 ==> self.has_audio
    }

    /// Lists how the parameters of a module come from the checkpoint where it does not
    /// store them under their own names.
    pub fn recipes_for(
        &self,
        prefix: &str,
        parameters: &Vec<ModuleParameter>,
        keys: &Vec<CheckpointKey>,
    ) -> (recipes: Vec<NamedRecipe>)
        requires
            self.config.moe_intermediate_size matches Some(size) ==> 0 <= size <= i32::MAX / 2,
        ensures
            crate::layerwise::recipe_list(recipes@) == module_recipes(
                prefix@,
                parameters@,
                keys@,
                self.config.moe_intermediate_size,
            ),
    {
        let normalized = normalized_checkpoint_keys(keys);
        let ghost names = crate::layerwise::raw_names(keys@);
        let ghost intermediate = self.config.moe_intermediate_size;
        let mut recipes: Vec<NamedRecipe> = Vec::new();
        assert(crate::layerwise::recipe_list(recipes@) =~= Seq::empty());
        match self.config.moe_intermediate_size {
            Some(size) => {
                add_fused(&mut recipes, prefix, "weight", keys, size as usize);
                add_fused(&mut recipes, prefix, "scales", keys, size as usize);
                add_fused(&mut recipes, prefix, "biases", keys, size as usize);
            },
            None => {},
        }
        assert(crate::layerwise::recipe_list(recipes@) =~= fused_recipes(
            prefix@,
            names,
            intermediate,
        ));
        let mut index: usize = 0;
        assert(parameters@.take(0).len() == 0);
        while index < parameters.len()
            invariant
                index <= parameters@.len(),
                normalizes(normalized@, keys@),
                names == crate::layerwise::raw_names(keys@),
                intermediate == self.config.moe_intermediate_size,
                crate::layerwise::recipe_list(recipes@) == module_recipes(
                    prefix@,
                    parameters@.take(index as int),
                    keys@,
                    intermediate,
                ),
            decreases parameters@.len() - index,
        {
            let parameter = &parameters[index];
            proof {
                assert(parameters@.take(index + 1).drop_last() =~= parameters@.take(index as int));
                normalized_lookup(normalized@, keys@, parameter.canonical@);
            }
            let mut destination = prefix.to_owned();
            destination.append(".");
            destination.append(parameter.name.as_str());
            if !named(&recipes, &parameter.name) && !has_key(keys, destination.as_str())
                && !has_key(keys, parameter.canonical.as_str()) {
                match find_key(&normalized, parameter.canonical.as_str()) {
                    Some(key) => {
                        add_recipe(
                            &mut recipes,
                            parameter.name.clone(),
                            WeightRecipe::Cast { key, dtype: parameter.dtype },
                        );
                    },
                    None => {},
                }
            }
            index = index + 1;
        }
        assert(parameters@.take(index as int) =~= parameters@);
        recipes
    }

    /// Answers whether layers get inputs of their own: with all modules for that, and not
    /// with none. Some of the modules alone are refused.
    pub fn has_per_layer_inputs(&self) -> (outcome: Result<bool, Error>)
        ensures
            ({
                let modules = self.per_layer;
                let all = modules.embedding && modules.projection && modules.norm;
                let any = modules.embedding || modules.projection || modules.norm;
                &&& crate::error::failed(outcome) == (if any && !all {
                    Some(
                        Failure::UnsupportedArchitecture(
                            "Gemma 4 per-layer input modules are incomplete"@,
                        ),
                    )
                } else {
                    None
                })
                &&& outcome matches Ok(inputs) ==> inputs == all
            }),
    {
        let modules = self.per_layer;
        if modules.embedding && modules.projection && modules.norm {
            Ok(true)
        } else if !modules.embedding && !modules.projection && !modules.norm {
            Ok(false)
        } else {
            Err(
                Error::UnsupportedArchitecture(
                    "Gemma 4 per-layer input modules are incomplete".to_owned(),
                ),
            )
        }
    }

    /// Returns the shape of the inputs that layers get for themselves.
    pub fn per_layer_shape(&self, batch: i32, sequence: i32) -> (shape: [i32; 4])
        ensures
            shape@ == seq![
                batch,
                sequence,
                self.config.num_hidden_layers,
                self.config.hidden_size_per_layer_input,
            ],
    {
        [
            batch,
            sequence,
            self.config.num_hidden_layers,
            self.config.hidden_size_per_layer_input,
        ]
    }

    /// The static units of the adapter, in order.
    pub open spec fn unit_list(self) -> Seq<(Seq<char>, Seq<char>)> {
        seq![(EMBEDDING_UNIT@, "model.language_model.embed_tokens"@)] + unit_if(
            self.per_layer.embedding,
            PER_LAYER_EMBEDDING_UNIT@,
            "model.language_model.embed_tokens_per_layer"@,
        ) + unit_if(
            self.per_layer.projection,
            PER_LAYER_PROJECTION_UNIT@,
            "model.language_model.per_layer_model_projection"@,
        ) + unit_if(
            self.per_layer.norm,
            PER_LAYER_NORM_UNIT@,
            "model.language_model.per_layer_projection_norm"@,
        ) + seq![(NORM_UNIT@, "model.language_model.norm"@)] + unit_if(
            self.has_head,
            HEAD_UNIT@,
            "lm_head"@,
        ) + unit_if(self.has_vision, VISION_STATIC_UNIT@, "model.vision_tower"@) + unit_if(
            self.has_vision,
            VISION_EMBED_UNIT@,
            "model.embed_vision"@,
        ) + unit_if(self.has_audio, AUDIO_STATIC_UNIT@, "model.audio_tower"@) + unit_if(
            self.has_audio,
            AUDIO_EMBED_UNIT@,
            "model.embed_audio"@,
        )
    }

    /// Lists the modules that stay resident.
    pub fn static_units(&self) -> (units: Vec<StaticUnit>)
        ensures
            crate::layerwise::unit_layout(units@) == self.unit_list(),
    {
        let mut units: Vec<StaticUnit> = Vec::new();
        assert(crate::layerwise::unit_layout(units@) =~= Seq::empty());
        add_unit(&mut units, EMBEDDING_UNIT, "model.language_model.embed_tokens");
        assert(crate::layerwise::unit_layout(units@) =~= seq![
            (EMBEDDING_UNIT@, "model.language_model.embed_tokens"@),
        ]);
        add_unit_if(
            &mut units,
            self.per_layer.embedding,
            PER_LAYER_EMBEDDING_UNIT,
            "model.language_model.embed_tokens_per_layer",
        );
        add_unit_if(
            &mut units,
            self.per_layer.projection,
            PER_LAYER_PROJECTION_UNIT,
            "model.language_model.per_layer_model_projection",
        );
        add_unit_if(
            &mut units,
            self.per_layer.norm,
            PER_LAYER_NORM_UNIT,
            "model.language_model.per_layer_projection_norm",
        );
        let ghost before = crate::layerwise::unit_layout(units@);
        add_unit(&mut units, NORM_UNIT, "model.language_model.norm");
        assert(crate::layerwise::unit_layout(units@) =~= before + seq![
            (NORM_UNIT@, "model.language_model.norm"@),
        ]);
        add_unit_if(&mut units, self.has_head, HEAD_UNIT, "lm_head");
        add_unit_if(&mut units, self.has_vision, VISION_STATIC_UNIT, "model.vision_tower");
        add_unit_if(&mut units, self.has_vision, VISION_EMBED_UNIT, "model.embed_vision");
        add_unit_if(&mut units, self.has_audio, AUDIO_STATIC_UNIT, "model.audio_tower");
        add_unit_if(&mut units, self.has_audio, AUDIO_EMBED_UNIT, "model.embed_audio");
        units
    }

    /// Checks that so many leases populate the static units, one each and in order.
    pub fn populate_static(&self, leases: usize) -> (outcome: Result<(), Error>)
        requires
            leases >= self.unit_list().len(),
        ensures
            crate::error::failed(outcome) == (if leases != self.unit_list().len() {
                Some(
                    Failure::UnsupportedArchitecture(
                        "Gemma 4 adapter received "@ + crate::text::decimal(leases as nat)
                            + " static leases, consumed "@ + crate::text::decimal(
                            self.unit_list().len(),
                        ),
                    ),
                )
            } else {
                None
            }),
    {
        let units = self.static_units();
        let consumed: usize = units.len();
        assert(crate::layerwise::unit_layout(units@).len() == consumed);
        if consumed != leases {
            let mut text = "Gemma 4 adapter received ".to_owned();
            text.append(usize_text(leases).as_str());
            text.append(" static leases, consumed ");
            text.append(usize_text(consumed).as_str());
            return Err(Error::UnsupportedArchitecture(text));
        }
        Ok(())
    }

    /// Checks the layers of a cache. One without layers is accepted: the caller then makes
    /// a new one, with a layer for each decoder layer of the model.
    pub fn validate_cache(&self, layers: usize) -> (outcome: Result<(), Error>)
        requires
            layers == 0 ==> self.config.num_hidden_layers >= 0,
        ensures
            layers == 0 ==> outcome is Ok,
            crate::error::failed(outcome) == (if layers > 0 && layers
                != self.config.num_hidden_layers {
                Some(
                    Failure::UnsupportedArchitecture(
                        "Gemma 4 cache has "@ + crate::text::decimal(layers as nat)
                            + " layers, expected "@ + crate::text::signed_decimal(
                            self.config.num_hidden_layers as int,
                        ),
                    ),
                )
            } else {
                None
            }),
    {
        if layers == 0 {
            return Ok(());
        }
        if self.config.num_hidden_layers < 0 || layers != self.config.num_hidden_layers as usize {
            let mut text = "Gemma 4 cache has ".to_owned();
            text.append(usize_text(layers).as_str());
            text.append(" layers, expected ");
            text.append(signed_text(self.config.num_hidden_layers as i64).as_str());
            return Err(Error::UnsupportedArchitecture(text));
        }
        Ok(())
    }

    /// The execution groups, in order: towers that have layers, then the text decoder.
    pub open spec fn groups(self) -> Seq<Gemma4Group> {
        (if self.vision_depth > 0 {
            seq![Gemma4Group::VisionEncoder]
        } else {
            seq![]
        }) + (if self.audio_depth > 0 {
            seq![Gemma4Group::AudioEncoder]
        } else {
            seq![]
        }) + seq![Gemma4Group::TextDecoder]
    }

    /// Number of execution groups.
    pub fn execution_group_count(&self) -> (count: usize)
        ensures
            count == self.groups().len(),
    {
        let mut count: usize = 1;
        if self.vision_depth > 0 {
            count = count + 1;
        }
        if self.audio_depth > 0 {
            count = count + 1;
        }
        count
    }

    /// Why a group is not one of the adapter's, if it is not.
    pub open spec fn group_failure(self, group: usize) -> Option<Failure> {
        if group < self.groups().len() {
            None
        } else {
            Some(
                Failure::UnsupportedArchitecture(
                    "Gemma 4 has no execution group "@ + crate::text::decimal(group as nat),
                ),
            )
        }
    }

    /// Returns which part of the model a group executes.
    pub fn execution_group(&self, group: usize) -> (outcome: Result<Gemma4Group, Error>)
        ensures
            crate::error::failed(outcome) == self.group_failure(group),
            outcome matches Ok(part) ==> part == self.groups()[group as int],
    {
        let mut index: usize = 0;
        if self.vision_depth > 0 {
            if group == index {
                return Ok(Gemma4Group::VisionEncoder);
            }
            index = index + 1;
        }
        if self.audio_depth > 0 {
            if group == index {
                return Ok(Gemma4Group::AudioEncoder);
            }
            index = index + 1;
        }
        if group == index {
            Ok(Gemma4Group::TextDecoder)
        } else {
            let mut text = "Gemma 4 has no execution group ".to_owned();
            text.append(usize_text(group).as_str());
            Err(Error::UnsupportedArchitecture(text))
        }
    }

    /// Returns the identity of a group.
    pub fn execution_group_id(&self, group: usize) -> (outcome: Result<String, Error>)
        ensures
            crate::error::failed(outcome) == self.group_failure(group),
            outcome matches Ok(id) ==> id@ == group_text(self.groups()[group as int]),
    {
        match self.execution_group(group) {
            Ok(part) => Ok(part.as_str().to_owned()),
            Err(error) => Err(error),
        }
    }

    /// Answers whether a group has anything to execute.
    pub fn should_execute_group(&self, group: usize, vision_jobs: usize, audio_jobs: usize) -> (executes:
        bool)
        ensures
            executes == (group < self.groups().len() && match self.groups()[group as int] {
                Gemma4Group::VisionEncoder => vision_jobs > 0,
                Gemma4Group::AudioEncoder => audio_jobs > 0,
                Gemma4Group::TextDecoder => true,
            }),
    {
        match self.execution_group(group) {
            Ok(Gemma4Group::VisionEncoder) => vision_jobs > 0,
            Ok(Gemma4Group::AudioEncoder) => audio_jobs > 0,
            Ok(Gemma4Group::TextDecoder) => true,
            Err(_) => false,
        }
    }

    /// Returns the number of layers of a group.
    pub fn layer_count(&self, group: usize) -> (outcome: Result<usize, Error>)
        requires
            self.wf(),
        ensures
            crate::error::failed(outcome) == self.group_failure(group),
            outcome matches Ok(count) ==> count == (match self.groups()[group as int] {
                Gemma4Group::VisionEncoder => self.vision_depth as int,
                Gemma4Group::AudioEncoder => self.audio_depth as int,
                Gemma4Group::TextDecoder => self.config.num_hidden_layers as int,
            }),
    {
        match self.execution_group(group) {
            Ok(Gemma4Group::VisionEncoder) => Ok(self.vision_depth),
            Ok(Gemma4Group::AudioEncoder) => Ok(self.audio_depth),
            Ok(Gemma4Group::TextDecoder) => Ok(self.config.num_hidden_layers as usize),
            Err(error) => Err(error),
        }
    }

    /// The part of the model that names a group's layers; groups that do not exist are
    /// named like text.
    pub open spec fn naming(self, group: usize) -> Gemma4Group {
        if group < self.groups().len() {
            self.groups()[group as int]
        } else {
            Gemma4Group::TextDecoder
        }
    }

    /// Returns the prefix of a layer's checkpoint keys.
    pub fn layer_checkpoint_prefix(&self, group: usize, index: usize) -> (prefix: String)
        ensures
            prefix@ == (match self.naming(group) {
                Gemma4Group::VisionEncoder => "model.vision_tower.encoder.layers."@,
                Gemma4Group::AudioEncoder => "model.audio_tower.layers."@,
                Gemma4Group::TextDecoder => "model.language_model.layers."@,
            }) + crate::text::decimal(index as nat),
    {
        match self.execution_group(group) {
            Ok(Gemma4Group::VisionEncoder) => numbered_prefix(
                "model.vision_tower.encoder.layers.",
                index,
            ),
            Ok(Gemma4Group::AudioEncoder) => numbered_prefix("model.audio_tower.layers.", index),
            _ => numbered_prefix("model.language_model.layers.", index),
        }
    }

    /// Returns the name of a layer's unit.
    pub fn layer_unit_name(&self, group: usize, index: usize) -> (name: String)
        ensures
            name@ == layer_unit(self.naming(group), index as nat),
    {
        match self.execution_group(group) {
            Ok(Gemma4Group::VisionEncoder) => numbered_unit_name("gemma4.vision.", index),
            Ok(Gemma4Group::AudioEncoder) => numbered_unit_name("gemma4.audio.", index),
            _ => numbered_unit_name("gemma4.layer.", index),
        }
    }

    /// Checks that a leased unit belongs to a group.
    pub fn check_layer<V, A, T>(&self, group: usize, layer: &Gemma4Layer<V, A, T>) -> (outcome: Result<
        Gemma4Group,
        Error,
    >)
        ensures
            crate::error::failed(outcome) == (match self.group_failure(group) {
                Some(failure) => Some(failure),
                None => if layer_group(*layer) == self.groups()[group as int] {
                    None
                } else {
                    Some(
                        Failure::UnsupportedArchitecture(
                            "Gemma 4 execution unit does not match group "@ + crate::text::decimal(
                                group as nat,
                            ),
                        ),
                    )
                },
            }),
            outcome matches Ok(part) ==> part == self.groups()[group as int],
    {
        let part = match self.execution_group(group) {
            Ok(part) => part,
            Err(error) => {
                return Err(error);
            },
        };
        let own = match layer {
            Gemma4Layer::Vision(_) => Gemma4Group::VisionEncoder,
            Gemma4Layer::Audio(_) => Gemma4Group::AudioEncoder,
            Gemma4Layer::Text(_) => Gemma4Group::TextDecoder,
        };
        if own != part {
            let mut text = "Gemma 4 execution unit does not match group ".to_owned();
            text.append(usize_text(group).as_str());
            return Err(Error::UnsupportedArchitecture(text));
        }
        Ok(part)
    }

    /// Chooses the attention mask of a text layer: a sliding layer prefers the sliding
    /// mask.
    pub fn choose_mask(&self, sliding_layer: bool, sliding_mask: bool, mask: bool) -> (choice:
        MaskChoice)
        ensures
            choice == (if sliding_layer && sliding_mask {
                MaskChoice::Sliding
            } else if mask {
                MaskChoice::Full
            } else {
                MaskChoice::Unmasked
            }),
    {
        if sliding_layer && sliding_mask {
            MaskChoice::Sliding
        } else if mask {
            MaskChoice::Full
        } else {
            MaskChoice::Unmasked
        }
    }

    /// Answers whether the layers of a group keep attention state in the cache.
    pub fn retains_cache(&self, group: usize) -> (retains: bool)
        ensures
            retains == (group < self.groups().len() && self.groups()[group as int]
                == Gemma4Group::TextDecoder),
    {
        match self.execution_group(group) {
            Ok(Gemma4Group::TextDecoder) => true,
            _ => false,
        }
    }

    /// Decides what ends a group. The group before the text decoder assembles the
    /// decoder's input where that is still to be done; the text decoder itself keeps its
    /// states for drafting.
    pub fn finish_execution_group(&self, group: usize, needs_assembly: bool) -> (finish: GroupFinish)
        requires
            group < usize::MAX,
        ensures
            finish == (if needs_assembly && group + 2 == self.groups().len() {
                GroupFinish::Assemble
            } else if group + 1 == self.groups().len() {
                GroupFinish::RetainDraft
            } else {
                GroupFinish::Keep
            }),
    {
        let count: usize = self.execution_group_count();
        if !needs_assembly || group + 1 != count - 1 {
            if group + 1 == count {
                GroupFinish::RetainDraft
            } else {
                GroupFinish::Keep
            }
        } else {
            GroupFinish::Assemble
        }
    }

    /// Answers whether a checkpoint key is not part of the model.
    pub fn ignores_checkpoint_key(&self, key: &str) -> (ignored: bool)
        ensures
            ignored == ("multi_modal_projector."@.is_prefix_of(key@)
                || "model.multi_modal_projector."@.is_prefix_of(key@)
                || "model.vision_embedder."@.is_prefix_of(key@)),
    {
        starts_with(key, "multi_modal_projector.") || starts_with(
            key,
            "model.multi_modal_projector.",
        ) || starts_with(key, "model.vision_embedder.")
    }
}

/// The name of a layer's unit.
pub open spec fn layer_unit(group: Gemma4Group, index: nat) -> Seq<char> {
    match group {
        Gemma4Group::VisionEncoder => crate::layerwise::numbered_unit("gemma4.vision."@, index),
        Gemma4Group::AudioEncoder => crate::layerwise::numbered_unit("gemma4.audio."@, index),
        Gemma4Group::TextDecoder => crate::layerwise::numbered_unit("gemma4.layer."@, index),
    }
}

/// The part of the model that a leased unit belongs to.
pub open spec fn layer_group<V, A, T>(layer: Gemma4Layer<V, A, T>) -> Gemma4Group {
    match layer {
        Gemma4Layer::Vision(_) => Gemma4Group::VisionEncoder,
        Gemma4Layer::Audio(_) => Gemma4Group::AudioEncoder,
        Gemma4Layer::Text(_) => Gemma4Group::TextDecoder,
    }
}

proof fn normalized_lookup(
    normalized: Seq<CheckpointKey>,
    keys: Seq<CheckpointKey>,
    name: Seq<char>,
)
    requires
        normalizes(normalized, keys),
    ensures
        crate::layerwise::key_named(normalized, name) == model_key(keys, name),
{
    let left = crate::layerwise::lookup_names(normalized);
    let right = crate::layerwise::lookup_names(keys).map_values(
        |name: Seq<char>| runtime_name(name),
    );
    assert forall|i: int| 0 <= i < left.len() implies #[trigger] left[i] == right[i] by {
        assert(normalized[i].canonical@ == runtime_name(keys[i].canonical@));
    }
    assert(left =~= right);
    position_in_range(left, name);
    match crate::layerwise::last_position(left, name) {
        Some(at) => {
            assert(normalized[at].raw@ == keys[at].raw@);
        },
        None => {},
    }
}

proof fn position_in_range(names: Seq<Seq<char>>, wanted: Seq<char>)
    ensures
        crate::layerwise::last_position(names, wanted) matches Some(at) ==> 0 <= at < names.len(),
    decreases names.len(),
{
    if names.len() > 0 {
        position_in_range(names.drop_last(), wanted);
    }
}

/// The text decoder is the last group, and the only one that decodes text.
pub proof fn text_decoder_comes_last(adapter: Gemma4LayerwiseAdapter, group: int)
    requires
        0 <= group < adapter.groups().len(),
    ensures
        adapter.groups()[group] == Gemma4Group::TextDecoder <==> group == adapter.groups().len()
            - 1,
{
}

/// All layers of all groups have different units.
pub proof fn layer_units_differ(left: Gemma4Group, i: nat, right: Gemma4Group, j: nat)
    requires
        layer_unit(left, i) == layer_unit(right, j),
    ensures
        left == right,
        i == j,
{
    reveal_strlit("gemma4.vision.");
    reveal_strlit("gemma4.audio.");
    reveal_strlit("gemma4.layer.");
    assert(layer_unit(left, i)[7] == (match left {
        Gemma4Group::VisionEncoder => 'v',
        Gemma4Group::AudioEncoder => 'a',
        Gemma4Group::TextDecoder => 'l',
    }));
    assert(layer_unit(right, j)[7] == (match right {
        Gemma4Group::VisionEncoder => 'v',
        Gemma4Group::AudioEncoder => 'a',
        Gemma4Group::TextDecoder => 'l',
    }));
    assert(left == right);
    match left {
        Gemma4Group::VisionEncoder => {
            crate::layerwise::numbered_units_differ("gemma4.vision."@, i, j);
        },
        Gemma4Group::AudioEncoder => {
            crate::layerwise::numbered_units_differ("gemma4.audio."@, i, j);
        },
        Gemma4Group::TextDecoder => {
            crate::layerwise::numbered_units_differ("gemma4.layer."@, i, j);
        },
    }
}

/// Checkpoint names lead to the model's own: each part of the model keeps what follows
/// its prefix, and names that already begin with `model.` stay.
pub proof fn checkpoint_names_lead_into_the_model(rest: Seq<char>)
    ensures
        runtime_name("language_model.model."@ + rest) == "model.language_model."@ + rest,
        runtime_name("vision_tower."@ + rest) == "model.vision_tower."@ + rest,
        runtime_name("embed_vision."@ + rest) == "model.embed_vision."@ + rest,
        runtime_name("audio_tower."@ + rest) == "model.audio_tower."@ + rest,
        runtime_name("embed_audio."@ + rest) == "model.embed_audio."@ + rest,
        runtime_name("model."@ + rest) == "model."@ + rest,
        runtime_name("lm_head."@ + rest) == "lm_head."@ + rest,
{
    reveal_strlit("language_model.model.");
    reveal_strlit("vision_tower.");
    reveal_strlit("embed_vision.");
    reveal_strlit("audio_tower.");
    reveal_strlit("embed_audio.");
    reveal_strlit("model.");
    reveal_strlit("lm_head.");
    let language = "language_model.model."@;
    let vision = "vision_tower."@;
    let image = "embed_vision."@;
    let audio = "audio_tower."@;
    let sound = "embed_audio."@;
    assert(language[0] == 'l' && language[1] == 'a' && vision[0] == 'v' && image[0] == 'e'
        && image[6] == 'v' && audio[0] == 'a' && sound[0] == 'e' && sound[6] == 'a');
    assert("model."@[0] == 'm' && "lm_head."@[0] == 'l' && "lm_head."@[1] == 'm');
    assert((language + rest).skip(language.len() as int) =~= rest);
    assert((vision + rest).skip(vision.len() as int) =~= rest);
    assert((image + rest).skip(image.len() as int) =~= rest);
    assert((audio + rest).skip(audio.len() as int) =~= rest);
    assert((sound + rest).skip(sound.len() as int) =~= rest);
    assert(language.is_prefix_of(language + rest));
    assert(vision.is_prefix_of(vision + rest));
    assert(image.is_prefix_of(image + rest));
    assert(audio.is_prefix_of(audio + rest));
    assert(sound.is_prefix_of(sound + rest));
    starts_differently(language, vision, rest, 0);
    starts_differently(language, image, rest, 0);
    starts_differently(language, audio, rest, 0);
    starts_differently(language, sound, rest, 0);
    starts_differently(vision, image, rest, 0);
    starts_differently(vision, audio, rest, 0);
    starts_differently(vision, sound, rest, 0);
    starts_differently(image, audio, rest, 0);
    starts_differently(image, sound, rest, 6);
    starts_differently(audio, sound, rest, 0);
    starts_differently(language, "model."@, rest, 0);
    starts_differently(vision, "model."@, rest, 0);
    starts_differently(image, "model."@, rest, 0);
    starts_differently(audio, "model."@, rest, 0);
    starts_differently(sound, "model."@, rest, 0);
    starts_differently(language, "lm_head."@, rest, 1);
    starts_differently(vision, "lm_head."@, rest, 0);
    starts_differently(image, "lm_head."@, rest, 0);
    starts_differently(audio, "lm_head."@, rest, 0);
    starts_differently(sound, "lm_head."@, rest, 0);
}

proof fn starts_differently(prefix: Seq<char>, start: Seq<char>, rest: Seq<char>, at: int)
    requires
        0 <= at < prefix.len(),
        at < start.len(),
        prefix[at] != start[at],
    ensures
        !prefix.is_prefix_of(start + rest),
{
    let text = start + rest;
    assert(text[at] == start[at]);
    if prefix.is_prefix_of(text) {
        assert(text.subrange(0, prefix.len() as int)[at] == prefix[at]);
    }
}

/// A name of the model leads to the last key whose checkpoint name stands for it.
pub proof fn model_names_lead_to_their_keys(keys: Seq<CheckpointKey>, name: Seq<char>, index: int)
    requires
        0 <= index < keys.len(),
        runtime_name(keys[index].canonical@) == name,
        forall|later: int|
            index < later < keys.len() ==> runtime_name((#[trigger] keys[later]).canonical@) != name,
    ensures
        model_key(keys, name) == Some(keys[index].raw@),
{
    let names = crate::layerwise::lookup_names(keys).map_values(|name: Seq<char>| runtime_name(name));
    assert forall|later: int| index < later < names.len() implies #[trigger] names[later] != name by {
        assert(names[later] == runtime_name(keys[later].canonical@));
    }
    crate::layerwise::the_last_name_is_found(names, name, index);
}

/// A fused projection is split in halves that meet: `gate_proj` takes the first rows and
/// `up_proj` those behind them, each from the tensor of its own companion, and nothing is
/// taken from a tensor that the checkpoint does not have.
pub proof fn fused_projections_are_split_in_halves(
    prefix: Seq<char>,
    names: Seq<Seq<char>>,
    intermediate: i32,
    suffix: Seq<char>,
)
    requires
        0 <= intermediate,
        2 * intermediate <= usize::MAX,
        suffix == "weight"@ || suffix == "scales"@ || suffix == "biases"@,
    ensures
        ({
            let recipes = fused_recipes(prefix, names, Some(intermediate));
            let source = prefix + ".experts.switch_glu.gate_up_proj."@ + suffix;
            let rows = intermediate as usize;
            names.contains(source) ==> {
                &&& recipes.contains(
                    (
                        "experts.switch_glu.gate_proj."@ + suffix,
                        Recipe::SelectRange(source, 1, 0, rows),
                    ),
                )
                &&& recipes.contains(
                    (
                        "experts.switch_glu.up_proj."@ + suffix,
                        Recipe::SelectRange(source, 1, rows, (rows + rows) as usize),
                    ),
                )
            }
        }),
        fused_recipes(prefix, names, None).len() == 0,
        forall|i: int|
            0 <= i < fused_recipes(prefix, names, Some(intermediate)).len() ==> {
                let recipe = (#[trigger] fused_recipes(prefix, names, Some(intermediate))[i]).1;
                recipe is SelectRange && names.contains(recipe->SelectRange_0)
            },
{
    let rows = intermediate as usize;
    let source = prefix + ".experts.switch_glu.gate_up_proj."@ + suffix;
    let first = fused_pair(prefix, "weight"@, names, rows);
    let second = fused_pair(prefix, "scales"@, names, rows);
    let third = fused_pair(prefix, "biases"@, names, rows);
    let recipes = fused_recipes(prefix, names, Some(intermediate));
    assert(recipes == first + second + third);
    if names.contains(source) {
        let pair = fused_pair(prefix, suffix, names, rows);
        let at = if suffix == "weight"@ {
            0
        } else if suffix == "scales"@ {
            first.len() as int
        } else {
            (first.len() + second.len()) as int
        };
        assert(recipes[at] == pair[0]);
        assert(recipes[at + 1] == pair[1]);
    }
    assert forall|i: int| 0 <= i < recipes.len() implies {
        let recipe = (#[trigger] recipes[i]).1;
        recipe is SelectRange && names.contains(recipe->SelectRange_0)
    } by {
        if i < first.len() {
            assert(recipes[i] == first[i]);
        } else if i < first.len() + second.len() {
            assert(recipes[i] == second[i - first.len()]);
        } else {
            assert(recipes[i] == third[i - first.len() - second.len()]);
        }
    }
}

/// Only what the checkpoint stores under another name is renamed: a parameter that is
/// there under its own name, or has a recipe already, or is not there at all, gets none;
/// any other is cast from the key that its name leads to.
pub proof fn only_renamed_parameters_get_recipes(
    prefix: Seq<char>,
    parameters: Seq<ModuleParameter>,
    parameter: ModuleParameter,
    keys: Seq<CheckpointKey>,
    intermediate: Option<i32>,
)
    ensures
        ({
            let names = crate::layerwise::raw_names(keys);
            let before = module_recipes(prefix, parameters, keys, intermediate);
            let after = module_recipes(prefix, parameters.push(parameter), keys, intermediate);
            &&& names.contains(prefix + "."@ + parameter.name@) ==> after == before
            &&& names.contains(parameter.canonical@) ==> after == before
            &&& model_key(keys, parameter.canonical@) is None ==> after == before
            &&& (exists|i: int| 0 <= i < before.len() && (#[trigger] before[i]).0 == parameter.name@)
                ==> after == before
            &&& after != before ==> {
                &&& after.len() == before.len() + 1
                &&& after.drop_last() == before
                &&& after.last().0 == parameter.name@
                &&& after.last().1 is Cast
                &&& model_key(keys, parameter.canonical@) == Some(after.last().1->Cast_0)
                &&& after.last().1->Cast_1 == parameter.dtype
            }
            &&& !names.contains(prefix + "."@ + parameter.name@) && !names.contains(
                parameter.canonical@,
            ) && model_key(keys, parameter.canonical@) is Some && !has_recipe(
                before,
                parameter.name@,
            ) ==> after.len() == before.len() + 1
        }),
{
    assert(parameters.push(parameter).drop_last() =~= parameters);
    let before = module_recipes(prefix, parameters, keys, intermediate);
    let after = module_recipes(prefix, parameters.push(parameter), keys, intermediate);
    if after != before {
        assert(after.drop_last() =~= before);
    }
}

/// A tower is an execution group exactly where it has layers, the decoder always is, and
/// groups stand in the order vision, audio, text, each once.
pub proof fn towers_with_layers_are_groups(adapter: Gemma4LayerwiseAdapter, group: usize)
    ensures
        ({
            let groups = adapter.groups();
            let towers = (if adapter.vision_depth > 0 {
                1int
            } else {
                0
            }) + (if adapter.audio_depth > 0 {
                1int
            } else {
                0
            });
            &&& groups.len() == towers + 1
            &&& adapter.vision_depth > 0 ==> groups[0] is VisionEncoder
            &&& adapter.audio_depth > 0 ==> groups[groups.len() - 2] is AudioEncoder
            &&& groups[groups.len() - 1] is TextDecoder
            &&& adapter.group_failure(group) is None <==> group <= towers
            &&& group <= towers ==> adapter.naming(group) == groups[group as int]
            &&& group >= towers ==> adapter.naming(group) is TextDecoder
        }),
{
}

/// Every part that the model has is loaded as a unit of its own from its own prefix, and
/// no unit is loaded for a part that it does not have.
pub proof fn present_parts_are_loaded(adapter: Gemma4LayerwiseAdapter)
    ensures
        ({
            let units = adapter.unit_list();
            &&& units.contains((EMBEDDING_UNIT@, "model.language_model.embed_tokens"@))
            &&& units.contains((NORM_UNIT@, "model.language_model.norm"@))
            &&& adapter.per_layer.embedding ==> units.contains(
                (PER_LAYER_EMBEDDING_UNIT@, "model.language_model.embed_tokens_per_layer"@),
            )
            &&& adapter.per_layer.projection ==> units.contains(
                (PER_LAYER_PROJECTION_UNIT@, "model.language_model.per_layer_model_projection"@),
            )
            &&& adapter.per_layer.norm ==> units.contains(
                (PER_LAYER_NORM_UNIT@, "model.language_model.per_layer_projection_norm"@),
            )
            &&& adapter.has_head ==> units.contains((HEAD_UNIT@, "lm_head"@))
            &&& adapter.has_vision ==> units.contains((VISION_STATIC_UNIT@, "model.vision_tower"@))
            &&& adapter.has_vision ==> units.contains((VISION_EMBED_UNIT@, "model.embed_vision"@))
            &&& adapter.has_audio ==> units.contains((AUDIO_STATIC_UNIT@, "model.audio_tower"@))
            &&& adapter.has_audio ==> units.contains((AUDIO_EMBED_UNIT@, "model.embed_audio"@))
            &&& units.len() == 2 + counted(adapter.per_layer.embedding) + counted(
                adapter.per_layer.projection,
            ) + counted(adapter.per_layer.norm) + counted(adapter.has_head) + 2 * counted(
                adapter.has_vision,
            ) + 2 * counted(adapter.has_audio)
        }),
{
    let a = counted(adapter.per_layer.embedding);
    let b = a + counted(adapter.per_layer.projection);
    let c = b + counted(adapter.per_layer.norm);
    let d = c + counted(adapter.has_head);
    let e = d + 2 * counted(adapter.has_vision);
    let units = adapter.unit_list();
    assert(units[0] == (EMBEDDING_UNIT@, "model.language_model.embed_tokens"@));
    if adapter.per_layer.embedding {
        assert(units[1] == (
            PER_LAYER_EMBEDDING_UNIT@,
            "model.language_model.embed_tokens_per_layer"@,
        ));
    }
    if adapter.per_layer.projection {
        assert(units[1 + a] == (
            PER_LAYER_PROJECTION_UNIT@,
            "model.language_model.per_layer_model_projection"@,
        ));
    }
    if adapter.per_layer.norm {
        assert(units[1 + b] == (
            PER_LAYER_NORM_UNIT@,
            "model.language_model.per_layer_projection_norm"@,
        ));
    }
    assert(units[1 + c] == (NORM_UNIT@, "model.language_model.norm"@));
    if adapter.has_head {
        assert(units[2 + c] == (HEAD_UNIT@, "lm_head"@));
    }
    if adapter.has_vision {
        assert(units[2 + d] == (VISION_STATIC_UNIT@, "model.vision_tower"@));
        assert(units[3 + d] == (VISION_EMBED_UNIT@, "model.embed_vision"@));
    }
    if adapter.has_audio {
        assert(units[2 + e] == (AUDIO_STATIC_UNIT@, "model.audio_tower"@));
        assert(units[3 + e] == (AUDIO_EMBED_UNIT@, "model.embed_audio"@));
    }
}

/// One for what is there, nothing for what is not.
pub open spec fn counted(present: bool) -> int {
    if present {
        1
    } else {
        0
    }
}

/// Groups have different identities.
pub proof fn groups_have_different_identities(left: Gemma4Group, right: Gemma4Group)
    ensures
        group_text(left) == group_text(right) ==> left == right,
{
    reveal_strlit("vision_encoder");
    reveal_strlit("audio_encoder");
    reveal_strlit("text_decoder");
    assert("vision_encoder"@[0] == 'v');
    assert("audio_encoder"@[0] == 'a');
    assert("text_decoder"@[0] == 't');
}

/// A tower runs exactly where it has layers and something to encode, and the decoder
/// always runs.
pub proof fn towers_run_where_they_have_work(
    adapter: Gemma4LayerwiseAdapter,
    group: usize,
    vision_jobs: usize,
    audio_jobs: usize,
    executes: bool,
)
    requires
        call_ensures(
            Gemma4LayerwiseAdapter::should_execute_group,
            (&adapter, group, vision_jobs, audio_jobs),
            executes,
        ),
    ensures
        group >= adapter.groups().len() ==> !executes,
        group + 1 == adapter.groups().len() ==> executes,
        group == 0 && adapter.vision_depth > 0 ==> executes == (vision_jobs > 0),
        group + 2 == adapter.groups().len() && adapter.audio_depth > 0 ==> executes == (audio_jobs
            > 0),
{
}

/// Each group has the layers of its own part of the model, named under that part's prefix.
pub proof fn groups_have_the_layers_of_their_part(
    adapter: Gemma4LayerwiseAdapter,
    group: usize,
    index: usize,
    counted: Result<usize, Error>,
    prefix: String,
)
    requires
        call_ensures(Gemma4LayerwiseAdapter::layer_count, (&adapter, group), counted),
        call_ensures(
            Gemma4LayerwiseAdapter::layer_checkpoint_prefix,
            (&adapter, group, index),
            prefix,
        ),
    ensures
        counted is Ok <==> group < adapter.groups().len(),
        group == 0 && adapter.vision_depth > 0 ==> counted == Ok::<usize, Error>(
            adapter.vision_depth as usize,
        ) && prefix@ == "model.vision_tower.encoder.layers."@ + crate::text::decimal(index as nat),
        group + 2 == adapter.groups().len() && adapter.audio_depth > 0 ==> counted == Ok::<
            usize,
            Error,
        >(adapter.audio_depth as usize) && prefix@ == "model.audio_tower.layers."@
            + crate::text::decimal(index as nat),
        group + 1 == adapter.groups().len() && adapter.config.num_hidden_layers >= 0 ==> counted
            == Ok::<usize, Error>(adapter.config.num_hidden_layers as usize) && prefix@
            == "model.language_model.layers."@ + crate::text::decimal(index as nat),
{
}

/// The decoder alone keeps attention state, its input is assembled when the last tower
/// has run, and its states are kept for drafting when it has run itself.
pub proof fn the_decoder_comes_after_the_towers(
    adapter: Gemma4LayerwiseAdapter,
    group: usize,
    needs_assembly: bool,
    finish: GroupFinish,
    retains: bool,
)
    requires
        group < adapter.groups().len(),
        call_ensures(
            Gemma4LayerwiseAdapter::finish_execution_group,
            (&adapter, group, needs_assembly),
            finish,
        ),
        call_ensures(Gemma4LayerwiseAdapter::retains_cache, (&adapter, group), retains),
    ensures
        retains <==> group + 1 == adapter.groups().len(),
        finish is RetainDraft <==> retains,
        finish is Assemble <==> needs_assembly && !retains && adapter.groups()[group + 1]
            is TextDecoder,
        !needs_assembly && !retains ==> finish is Keep,
{
}

/// A sliding layer never attends without its window where a window is given, and no layer
/// attends unmasked where a mask is.
pub proof fn given_masks_are_applied(
    adapter: Gemma4LayerwiseAdapter,
    sliding_layer: bool,
    sliding_mask: bool,
    mask: bool,
    choice: MaskChoice,
)
    requires
        call_ensures(
            Gemma4LayerwiseAdapter::choose_mask,
            (&adapter, sliding_layer, sliding_mask, mask),
            choice,
        ),
    ensures
        sliding_layer && sliding_mask <==> choice is Sliding,
        mask ==> !(choice is Unmasked),
        choice is Full ==> mask,
        !mask && !sliding_mask ==> choice is Unmasked,
{
}

/// A leased layer runs exactly in the group of its own part.
pub proof fn layers_run_in_their_own_group<V, A, T>(
    adapter: Gemma4LayerwiseAdapter,
    group: usize,
    layer: Gemma4Layer<V, A, T>,
    checked: Result<Gemma4Group, Error>,
)
    requires
        call_ensures(
            Gemma4LayerwiseAdapter::check_layer::<V, A, T>,
            (&adapter, group, &layer),
            checked,
        ),
    ensures
        checked is Ok <==> group < adapter.groups().len() && match layer {
            Gemma4Layer::Vision(_) => adapter.groups()[group as int] is VisionEncoder,
            Gemma4Layer::Audio(_) => adapter.groups()[group as int] is AudioEncoder,
            Gemma4Layer::Text(_) => adapter.groups()[group as int] is TextDecoder,
        },
{
}

/// The static part takes one lease for each of its units.
pub proof fn static_units_take_one_lease_each(
    adapter: Gemma4LayerwiseAdapter,
    units: Vec<StaticUnit>,
    leases: usize,
    populated: Result<(), Error>,
)
    requires
        call_ensures(Gemma4LayerwiseAdapter::static_units, (&adapter,), units),
        call_ensures(Gemma4LayerwiseAdapter::populate_static, (&adapter, leases), populated),
    ensures
        populated is Ok <==> leases == units@.len(),
{
    assert(crate::layerwise::unit_layout(units@).len() == units@.len());
}

/// A cache fits the model exactly where it has a layer for each decoder layer, or none
/// yet.
pub proof fn caches_have_a_layer_for_each(
    adapter: Gemma4LayerwiseAdapter,
    layers: usize,
    checked: Result<(), Error>,
)
    requires
        call_ensures(Gemma4LayerwiseAdapter::validate_cache, (&adapter, layers), checked),
    ensures
        checked is Ok <==> layers == 0 || layers == adapter.config.num_hidden_layers,
{
}

/// Per-layer inputs are used where all of their modules are there and are refused where
/// only some are.
pub proof fn per_layer_inputs_need_all_modules(
    adapter: Gemma4LayerwiseAdapter,
    used: Result<bool, Error>,
)
    requires
        call_ensures(Gemma4LayerwiseAdapter::has_per_layer_inputs, (&adapter,), used),
    ensures
        used == Ok::<bool, Error>(true) <==> adapter.per_layer.embedding
            && adapter.per_layer.projection && adapter.per_layer.norm,
        used == Ok::<bool, Error>(false) <==> !adapter.per_layer.embedding
            && !adapter.per_layer.projection && !adapter.per_layer.norm,
{
}

} // verus!
