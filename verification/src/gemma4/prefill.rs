//! Prompts of several media: planning their parts, and assembling what the decoder gets.

use vstd::prelude::*;
use vstd::string::StringExecFns;

use crate::error::{Error, Failure};
use crate::gemma4::adapter::Gemma4LayerwiseAdapter;
use crate::rows::{copy_rows, extend_rows, pad_rows};

verus! {

/// Medium of a prompt part.
#[derive(Debug, Clone, Copy, PartialEq, Eq, Structural)]
pub enum Modality {
    /// Text.
    Text,
    /// Still images.
    Image,
    /// Video.
    Video,
    /// Audio.
    Audio,
}

/// The name of a medium.
pub open spec fn modality_name(modality: Modality) -> Seq<char> {
    match modality {
        Modality::Text => "text"@,
        Modality::Image => "image"@,
        Modality::Video => "video"@,
        Modality::Audio => "audio"@,
    }
}

impl Modality {
    /// Returns the name of the medium.
    pub fn as_str(&self) -> (name: &'static str)
        ensures
            name@ == modality_name(*self),
    {
        match self {
            Modality::Text => "text",
            Modality::Image => "image",
            Modality::Video => "video",
            Modality::Audio => "audio",
        }
    }
}

/// What a prompt part holds.
#[derive(Debug)]
pub enum InputPayload {
    /// Token ids.
    TokenIds(Vec<u32>),
    /// Pixels or features that a tower encodes.
    Tensor,
    /// Embeddings of so many tokens; `mismatch` says how their size differs from that of
    /// the model, where it does.
    Embeddings {
        /// Tokens.
        tokens: usize,
        /// Why the size is refused.
        mismatch: Option<String>,
    },
}

/// One part of a prompt.
#[derive(Debug)]
pub struct InputPart {
    /// Medium.
    pub modality: Modality,
    /// Contents.
    pub payload: InputPayload,
    /// Whether the positions of patches are known.
    pub has_patch_positions: bool,
    /// Whether the mask of audio frames is known.
    pub has_audio_mask: bool,
}

/// A planned part: its tokens are known, or a tower encodes it first.
#[derive(Debug)]
pub enum PreparedPart {
    /// Tokens and embeddings are there.
    Ready {
        /// Tokens.
        tokens: Vec<u32>,
    },
    /// The vision tower encodes it.
    Vision {
        /// Token that stands for each embedding.
        token_id: u32,
        /// Number of the job.
        job: usize,
    },
    /// The audio tower encodes it.
    Audio {
        /// Token that stands for each embedding.
        token_id: u32,
        /// Number of the job.
        job: usize,
    },
}

/// The mathematical value of a [`PreparedPart`].
pub enum Part {
    Ready(Seq<u32>),
    Vision(u32, usize),
    Audio(u32, usize),
}

impl View for PreparedPart {
    type V = Part;

    open spec fn view(&self) -> Part {
        match *self {
            PreparedPart::Ready { tokens } => Part::Ready(tokens@),
            PreparedPart::Vision { token_id, job } => Part::Vision(token_id, job),
            PreparedPart::Audio { token_id, job } => Part::Audio(token_id, job),
        }
    }
}

/// The mathematical values of planned parts.
pub open spec fn part_views(parts: Seq<PreparedPart>) -> Seq<Part> {
    parts.map_values(|part: PreparedPart| part@)
}

/// The token that stands for a medium.
pub open spec fn media_token(adapter: Gemma4LayerwiseAdapter, modality: Modality) -> Option<i32> {
    match modality {
        Modality::Image => adapter.config.image_token_id,
        Modality::Video => adapter.config.video_token_id,
        Modality::Audio => adapter.config.audio_token_id,
        Modality::Text => None,
    }
}

/// A failure of the architecture.
pub open spec fn unsupported(text: Seq<char>) -> Failure {
    Failure::UnsupportedArchitecture(text)
}

/// What becomes of a part after so many jobs, or why it is refused.
pub open spec fn part_plan(
    adapter: Gemma4LayerwiseAdapter,
    part: InputPart,
    vision_jobs: usize,
    audio_jobs: usize,
) -> Result<Part, Failure> {
    let name = modality_name(part.modality);
    let token = media_token(adapter, part.modality);
    match (part.modality, part.payload) {
        (Modality::Text, InputPayload::TokenIds(tokens)) => Ok(Part::Ready(tokens@)),
        (Modality::Image, InputPayload::Tensor) | (Modality::Video, InputPayload::Tensor) =>
            if !part.has_patch_positions {
                Err(
                    unsupported(
                        "gemma4 "@ + name + " tensor input requires patch_position_ids metadata"@,
                    ),
                )
            } else if token is None {
                Err(unsupported("gemma4 config does not define a "@ + name + " token ID"@))
            } else if !adapter.has_vision {
                Err(
                    unsupported(
                        "gemma4 "@ + name
                            + " tensor input requires vision_config and vision weights"@,
                    ),
                )
            } else {
                Ok(Part::Vision(token->0 as u32, vision_jobs))
            },
        (Modality::Audio, InputPayload::Tensor) => if !part.has_audio_mask {
            Err(unsupported("gemma4 audio tensor input requires audio_mask metadata"@))
        } else if token is None {
            Err(unsupported("gemma4 config does not define an audio token ID"@))
        } else if !adapter.has_audio {
            Err(
                unsupported(
                    "gemma4 audio tensor input requires audio_config and audio weights"@,
                ),
            )
        } else {
            Ok(Part::Audio(token->0 as u32, audio_jobs))
        },
        (Modality::Text, _) => Err(
            unsupported(
                "gemma4 layerwise input does not support "@ + name + " payloads of this kind"@,
            ),
        ),
        (_, InputPayload::Embeddings { tokens, mismatch }) => if mismatch is Some {
            Err(Failure::Exception(mismatch->0@))
        } else if token is None {
            Err(unsupported("gemma4 config does not define a "@ + name + " token ID"@))
        } else {
            Ok(Part::Ready(crate::rows::repeated(token->0 as u32, tokens as nat)))
        },
        _ => Err(
            unsupported(
                "gemma4 layerwise input does not support "@ + name + " payloads of this kind"@,
            ),
        ),
    }
}

fn about(start: &str, modality: Modality, end: &str) -> (error: Error)
    ensures
        error@ == unsupported(start@ + modality_name(modality) + end@),
{
    let mut text = start.to_owned();
    text.append(modality.as_str());
    text.append(end);
    Error::UnsupportedArchitecture(text)
}

fn refuse(text: &str) -> (error: Error)
    ensures
        error@ == unsupported(text@),
{
    Error::UnsupportedArchitecture(text.to_owned())
}

/// How many parts the vision tower encodes.
pub open spec fn vision_parts(parts: Seq<Part>) -> nat
    decreases parts.len(),
{
    if parts.len() == 0 {
        0
    } else {
        vision_parts(parts.drop_last()) + (if parts.last() is Vision {
            1nat
        } else {
            0
        })
    }
}

/// How many parts the audio tower encodes.
pub open spec fn audio_parts(parts: Seq<Part>) -> nat
    decreases parts.len(),
{
    if parts.len() == 0 {
        0
    } else {
        audio_parts(parts.drop_last()) + (if parts.last() is Audio {
            1nat
        } else {
            0
        })
    }
}

/// The planned parts of a prompt, as far as they are accepted.
pub open spec fn planned(adapter: Gemma4LayerwiseAdapter, parts: Seq<InputPart>) -> Seq<Part>
    decreases parts.len(),
{
    if parts.len() == 0 {
        Seq::empty()
    } else {
        let before = planned(adapter, parts.drop_last());
        match part_plan(
            adapter,
            parts.last(),
            vision_parts(before) as usize,
            audio_parts(before) as usize,
        ) {
            Ok(part) => before.push(part),
            Err(_) => before,
        }
    }
}

/// Why a prompt is refused from part `from` on, if it is.
pub open spec fn prompt_failure(
    adapter: Gemma4LayerwiseAdapter,
    parts: Seq<InputPart>,
    from: int,
) -> Option<Failure>
    decreases parts.len() - from,
{
    if from >= parts.len() {
        None
    } else {
        match part_plan(adapter, parts[from], 0, 0) {
            Err(failure) => Some(failure),
            Ok(_) => prompt_failure(adapter, parts, from + 1),
        }
    }
}

/// A planned prompt.
#[derive(Debug)]
pub struct PrefillPlan {
    /// The parts, in order.
    pub parts: Vec<PreparedPart>,
    /// Jobs of the vision tower.
    pub vision_jobs: usize,
    /// Jobs of the audio tower.
    pub audio_jobs: usize,
    /// Whether the decoder's input is assembled only after the towers have run.
    pub needs_assembly: bool,
}

/// Where the hidden states of the first group come from.
#[derive(Debug, Clone, Copy, PartialEq, Eq, Structural)]
pub enum FirstHidden {
    /// The first job of the vision tower.
    Vision,
    /// The first job of the audio tower.
    Audio,
    /// The embeddings of a part that is ready.
    Ready {
        /// The part.
        part: usize,
    },
}

impl Gemma4LayerwiseAdapter {
    fn token_for(&self, modality: Modality) -> (token: Option<i32>)
        ensures
            token == media_token(*self, modality),
    {
        match modality {
            Modality::Image => self.config.image_token_id,
            Modality::Video => self.config.video_token_id,
            Modality::Audio => self.config.audio_token_id,
            Modality::Text => None,
        }
    }

    /// Plans one part of a prompt after so many jobs.
    pub fn plan_part(&self, part: &InputPart, vision_jobs: usize, audio_jobs: usize) -> (outcome:
        Result<PreparedPart, Error>)
        ensures
            match part_plan(*self, *part, vision_jobs, audio_jobs) {
                Ok(planned) => outcome matches Ok(own) && own@ == planned,
                Err(failure) => outcome matches Err(error) && error@ == failure,
            },
    {
        let modality = part.modality;
        match (modality, &part.payload) {
            (Modality::Text, InputPayload::TokenIds(tokens)) => {
                let copy = copy_rows(tokens, 0, tokens.len());
                assert(copy@ =~= tokens@);
                Ok(PreparedPart::Ready { tokens: copy })
            },
            (Modality::Image, InputPayload::Tensor) | (Modality::Video, InputPayload::Tensor) => {
                if !part.has_patch_positions {
                    return Err(
                        about(
                            "gemma4 ",
                            modality,
                            " tensor input requires patch_position_ids metadata",
                        ),
                    );
                }
                match self.token_for(modality) {
                    Some(token) => {
                        if !self.has_vision {
                            return Err(
                                about(
                                    "gemma4 ",
                                    modality,
                                    " tensor input requires vision_config and vision weights",
                                ),
                            );
                        }
                        Ok(PreparedPart::Vision { token_id: token as u32, job: vision_jobs })
                    },
                    None => Err(
                        about("gemma4 config does not define a ", modality, " token ID"),
                    ),
                }
            },
            (Modality::Audio, InputPayload::Tensor) => {
                if !part.has_audio_mask {
                    return Err(refuse("gemma4 audio tensor input requires audio_mask metadata"));
                }
                match self.token_for(modality) {
                    Some(token) => {
                        if !self.has_audio {
                            return Err(
                                refuse(
                                    "gemma4 audio tensor input requires audio_config and audio weights",
                                ),
                            );
                        }
                        Ok(PreparedPart::Audio { token_id: token as u32, job: audio_jobs })
                    },
                    None => Err(refuse("gemma4 config does not define an audio token ID")),
                }
            },
            (Modality::Text, _) => Err(
                about(
                    "gemma4 layerwise input does not support ",
                    modality,
                    " payloads of this kind",
                ),
            ),
            (_, InputPayload::Embeddings { tokens: count, mismatch }) => {
                match mismatch {
                    Some(text) => {
                        return Err(Error::Exception(text.clone()));
                    },
                    None => {},
                }
                match self.token_for(modality) {
                    Some(token) => {
                        let mut tokens: Vec<u32> = Vec::new();
                        pad_rows(&mut tokens, token as u32, *count);
                        assert(tokens@ =~= crate::rows::repeated(token as u32, *count as nat));
                        Ok(PreparedPart::Ready { tokens })
                    },
                    None => Err(
                        about("gemma4 config does not define a ", modality, " token ID"),
                    ),
                }
            },
            _ => Err(
                about(
                    "gemma4 layerwise input does not support ",
                    modality,
                    " payloads of this kind",
                ),
            ),
        }
    }

    /// Plans a prompt. Without towers the decoder's input is assembled at once.
    pub fn plan_prefill(&self, parts: &Vec<InputPart>) -> (outcome: Result<PrefillPlan, Error>)
        ensures
            crate::error::failed(outcome) == prompt_failure(*self, parts@, 0),
            outcome matches Ok(plan) ==> {
                &&& part_views(plan.parts@) == planned(*self, parts@)
                &&& plan.parts@.len() == parts@.len()
                &&& plan.vision_jobs == vision_parts(part_views(plan.parts@))
                &&& plan.audio_jobs == audio_parts(part_views(plan.parts@))
                &&& plan.needs_assembly == (self.vision_depth > 0 || self.audio_depth > 0)
            },
    {
        let mut prepared: Vec<PreparedPart> = Vec::new();
        let mut vision_jobs: usize = 0;
        let mut audio_jobs: usize = 0;
        let mut index: usize = 0;
        assert(parts@.take(0).len() == 0);
        assert(part_views(prepared@) =~= Seq::empty());
        while index < parts.len()
            invariant
                index <= parts@.len(),
                prompt_failure(*self, parts@, 0) == prompt_failure(*self, parts@, index as int),
                part_views(prepared@) == planned(*self, parts@.take(index as int)),
                prepared@.len() == index,
                vision_jobs == vision_parts(part_views(prepared@)),
                audio_jobs == audio_parts(part_views(prepared@)),
                vision_jobs <= index,
                audio_jobs <= index,
            decreases parts@.len() - index,
        {
            let ghost before = prepared@;
            proof {
                assert(parts@.take(index + 1).drop_last() =~= parts@.take(index as int));
                refusals_ignore_jobs(*self, parts@[index as int], vision_jobs, audio_jobs);
            }
            match self.plan_part(&parts[index], vision_jobs, audio_jobs) {
                Ok(part) => {
                    match &part {
                        PreparedPart::Ready { .. } => {},
                        PreparedPart::Vision { .. } => {
                            vision_jobs = vision_jobs + 1;
                        },
                        PreparedPart::Audio { .. } => {
                            audio_jobs = audio_jobs + 1;
                        },
                    }
                    let ghost view = part@;
                    prepared.push(part);
                    proof {
                        assert(part_views(prepared@) =~= part_views(before).push(view));
                        assert(part_views(prepared@).drop_last() =~= part_views(before));
                    }
                },
                Err(error) => {
                    return Err(error);
                },
            }
            index = index + 1;
        }
        assert(parts@.take(index as int) =~= parts@);
        let needs_assembly = self.vision_depth > 0 || self.audio_depth > 0;
        Ok(PrefillPlan { parts: prepared, vision_jobs, audio_jobs, needs_assembly })
    }

    /// Replaces the tokens that stand for media by padding.
    pub fn media_safe_per_layer_ids(&self, tokens: &Vec<u32>) -> (safe: Vec<i64>)
        ensures
            safe@.len() == tokens@.len(),
            forall|i: int|
                0 <= i < tokens@.len() ==> #[trigger] safe@[i] == self.safe_token(tokens@[i]),
    {
        let mut safe: Vec<i64> = Vec::new();
        let mut index: usize = 0;
        while index < tokens.len()
            invariant
                index <= tokens@.len(),
                safe@.len() == index,
                forall|i: int|
                    0 <= i < index ==> #[trigger] safe@[i] == self.safe_token(tokens@[i]),
            decreases tokens@.len() - index,
        {
            let token: i64 = tokens[index] as i64;
            if stands_for(self.config.image_token_id, token) || stands_for(
                self.config.video_token_id,
                token,
            ) || stands_for(self.config.audio_token_id, token) {
                safe.push(self.config.pad_token_id as i64);
            } else {
                safe.push(token);
            }
            index = index + 1;
        }
        safe
    }

    /// Padding in place of a token that stands for a medium.
    pub open spec fn safe_token(self, token: u32) -> i64 {
        if is_token(self.config.image_token_id, token as int) || is_token(
            self.config.video_token_id,
            token as int,
        ) || is_token(self.config.audio_token_id, token as int) {
            self.config.pad_token_id as i64
        } else {
            token as i64
        }
    }
}

/// Whether an optional token id is this token.
pub open spec fn is_token(id: Option<i32>, token: int) -> bool {
    id matches Some(id) && id == token
}

fn stands_for(id: Option<i32>, token: i64) -> (same: bool)
    ensures
        same == is_token(id, token as int),
{
    match id {
        Some(id) => id as i64 == token,
        None => false,
    }
}

proof fn refusals_ignore_jobs(
    adapter: Gemma4LayerwiseAdapter,
    part: InputPart,
    vision_jobs: usize,
    audio_jobs: usize,
)
    ensures
        match part_plan(adapter, part, 0, 0) {
            Ok(_) => part_plan(adapter, part, vision_jobs, audio_jobs) is Ok,
            Err(failure) => part_plan(adapter, part, vision_jobs, audio_jobs) == Err::<
                Part,
                Failure,
            >(failure),
        },
{
}

/// Jobs are numbered in the order of their parts.
pub open spec fn jobs_in_order(parts: Seq<Part>) -> bool {
    forall|i: int|
        0 <= i < parts.len() ==> match #[trigger] parts[i] {
            Part::Ready(_) => true,
            Part::Vision(_, job) => job == vision_parts(parts.take(i)) as usize,
            Part::Audio(_, job) => job == audio_parts(parts.take(i)) as usize,
        }
}

/// Every job of a planned prompt has the number of media parts before its own.
pub proof fn planned_jobs_are_numbered(adapter: Gemma4LayerwiseAdapter, parts: Seq<InputPart>)
    ensures
        jobs_in_order(planned(adapter, parts)),
    decreases parts.len(),
{
    if parts.len() > 0 {
        planned_jobs_are_numbered(adapter, parts.drop_last());
        let before = planned(adapter, parts.drop_last());
        let all = planned(adapter, parts);
        assert forall|i: int| 0 <= i < all.len() implies match #[trigger] all[i] {
            Part::Ready(_) => true,
            Part::Vision(_, job) => job == vision_parts(all.take(i)) as usize,
            Part::Audio(_, job) => job == audio_parts(all.take(i)) as usize,
        } by {
            if i < before.len() {
                assert(all[i] == before[i]);
                assert(all.take(i) =~= before.take(i));
            } else {
                assert(all.take(i) =~= before);
            }
        }
    }
}

/// Chooses where the hidden states of the first group come from: the first vision job,
/// else the first audio job, else the first part that is ready.
pub fn first_hidden(plan: &PrefillPlan) -> (first: FirstHidden)
    requires
        plan.vision_jobs == vision_parts(part_views(plan.parts@)),
        plan.audio_jobs == audio_parts(part_views(plan.parts@)),
        plan.parts@.len() > 0,
    ensures
        first == (if plan.vision_jobs > 0 {
            FirstHidden::Vision
        } else if plan.audio_jobs > 0 {
            FirstHidden::Audio
        } else {
            FirstHidden::Ready { part: 0 }
        }),
        first matches FirstHidden::Ready { part } ==> plan.parts@[part as int]@ is Ready,
{
    if plan.vision_jobs > 0 {
        FirstHidden::Vision
    } else if plan.audio_jobs > 0 {
        FirstHidden::Audio
    } else {
        proof {
            no_jobs_means_ready(part_views(plan.parts@), 0);
            assert(part_views(plan.parts@)[0] == plan.parts@[0]@);
        }
        FirstHidden::Ready { part: 0 }
    }
}

proof fn no_jobs_means_ready(parts: Seq<Part>, at: int)
    requires
        vision_parts(parts) == 0,
        audio_parts(parts) == 0,
        0 <= at < parts.len(),
    ensures
        parts[at] is Ready,
    decreases parts.len(),
{
    if at < parts.len() - 1 {
        no_jobs_means_ready(parts.drop_last(), at);
    }
}

/// The tokens of one part: its own, or one for each embedding that a tower gave.
pub open spec fn part_tokens(part: Part, vision: Seq<(usize, usize)>, audio: Seq<usize>) -> Seq<
    u32,
> {
    match part {
        Part::Ready(tokens) => tokens,
        Part::Vision(token, job) => crate::rows::repeated(
            token,
            (vision[job as int].0 * vision[job as int].1) as nat,
        ),
        Part::Audio(token, job) => crate::rows::repeated(token, audio[job as int] as nat),
    }
}

/// The tokens of a prompt. `vision` says how many images each vision job has and how many
/// embeddings each image gave, `audio` how many embeddings each audio job gave.
pub open spec fn prompt_tokens(
    parts: Seq<Part>,
    vision: Seq<(usize, usize)>,
    audio: Seq<usize>,
) -> Seq<u32>
    decreases parts.len(),
{
    if parts.len() == 0 {
        Seq::empty()
    } else {
        prompt_tokens(parts.drop_last(), vision, audio) + part_tokens(parts.last(), vision, audio)
    }
}

/// The tokens of the parts that are ready.
pub open spec fn ready_tokens(parts: Seq<Part>) -> Seq<u32>
    decreases parts.len(),
{
    if parts.len() == 0 {
        Seq::empty()
    } else {
        ready_tokens(parts.drop_last()) + (match parts.last() {
            Part::Ready(tokens) => tokens,
            _ => Seq::empty(),
        })
    }
}

/// Whether every job has an embedding count.
pub open spec fn jobs_counted(
    parts: Seq<Part>,
    vision: Seq<(usize, usize)>,
    audio: Seq<usize>,
) -> bool {
    forall|i: int|
        0 <= i < parts.len() ==> match #[trigger] parts[i] {
            Part::Ready(_) => true,
            Part::Vision(_, job) => job < vision.len() && vision[job as int].0
                * vision[job as int].1 <= usize::MAX,
            Part::Audio(_, job) => job < audio.len(),
        }
}

/// Assembles the tokens of a prompt after the towers have run.
pub fn assemble_tokens(
    parts: &Vec<PreparedPart>,
    vision: &Vec<(usize, usize)>,
    audio: &Vec<usize>,
) -> (tokens: Vec<u32>)
    requires
        jobs_counted(part_views(parts@), vision@, audio@),
    ensures
        tokens@ == prompt_tokens(part_views(parts@), vision@, audio@),
{
    let ghost views = part_views(parts@);
    let mut tokens: Vec<u32> = Vec::new();
    let mut index: usize = 0;
    assert(views.take(0).len() == 0);
    while index < parts.len()
        invariant
            index <= parts@.len(),
            views == part_views(parts@),
            jobs_counted(views, vision@, audio@),
            tokens@ == prompt_tokens(views.take(index as int), vision@, audio@),
        decreases parts@.len() - index,
    {
        proof {
            assert(views.take(index + 1).drop_last() =~= views.take(index as int));
            assert(views[index as int] == parts@[index as int]@);
        }
        match &parts[index] {
            PreparedPart::Ready { tokens: own } => {
                extend_rows(&mut tokens, own);
            },
            PreparedPart::Vision { token_id, job } => {
                let (images, each) = vision[*job];
                pad_rows(&mut tokens, *token_id, images * each);
            },
            PreparedPart::Audio { token_id, job } => {
                pad_rows(&mut tokens, *token_id, audio[*job]);
            },
        }
        index = index + 1;
    }
    assert(views.take(index as int) =~= views);
    tokens
}

/// Gathers the tokens of the parts that are ready, for a model without towers.
pub fn gather_ready_tokens(parts: &Vec<PreparedPart>) -> (tokens: Vec<u32>)
    ensures
        tokens@ == ready_tokens(part_views(parts@)),
{
    let ghost views = part_views(parts@);
    let mut tokens: Vec<u32> = Vec::new();
    let mut index: usize = 0;
    assert(views.take(0).len() == 0);
    while index < parts.len()
        invariant
            index <= parts@.len(),
            views == part_views(parts@),
            tokens@ == ready_tokens(views.take(index as int)),
        decreases parts@.len() - index,
    {
        proof {
            assert(views.take(index + 1).drop_last() =~= views.take(index as int));
            assert(views[index as int] == parts@[index as int]@);
        }
        match &parts[index] {
            PreparedPart::Ready { tokens: own } => {
                extend_rows(&mut tokens, own);
            },
            _ => {
                assert(tokens@ + Seq::<u32>::empty() =~= tokens@);
            },
        }
        index = index + 1;
    }
    assert(views.take(index as int) =~= views);
    tokens
}

/// Answers whether a prompt or a decode step of so many tokens needs a causal mask.
pub fn needs_causal_mask(tokens: usize) -> (masked: bool)
    ensures
        masked == (tokens > 1),
{
    tokens > 1
}

/// The largest offset of the layers that have cached something.
pub open spec fn largest_offset(offsets: Seq<Option<i32>>) -> Option<i32>
    decreases offsets.len(),
{
    if offsets.len() == 0 {
        None
    } else {
        let before = largest_offset(offsets.drop_last());
        match (before, offsets.last()) {
            (Some(before), Some(last)) => if last > before {
                Some(last)
            } else {
                Some(before)
            },
            (Some(before), None) => Some(before),
            (None, last) => last,
        }
    }
}

/// Returns the position at which a decode step starts: the largest offset of any layer.
pub fn decode_offset(offsets: &Vec<Option<i32>>) -> (offset: i32)
    ensures
        offset == (match largest_offset(offsets@) {
            Some(offset) => offset,
            None => 0,
        }),
{
    let mut largest: Option<i32> = None;
    let mut index: usize = 0;
    assert(offsets@.take(0).len() == 0);
    while index < offsets.len()
        invariant
            index <= offsets@.len(),
            largest == largest_offset(offsets@.take(index as int)),
        decreases offsets@.len() - index,
    {
        proof {
            assert(offsets@.take(index + 1).drop_last() =~= offsets@.take(index as int));
        }
        largest = match (largest, offsets[index]) {
            (Some(before), Some(last)) => if last > before {
                Some(last)
            } else {
                Some(before)
            },
            (Some(before), None) => Some(before),
            (None, last) => last,
        };
        index = index + 1;
    }
    assert(offsets@.take(index as int) =~= offsets@);
    match largest {
        Some(offset) => offset,
        None => 0,
    }
}

/// How a decode step starts.
#[derive(Debug, Clone, Copy, PartialEq, Eq, Structural)]
pub struct DecodeStart {
    /// Position of the first new token.
    pub position_offset: i32,
    /// Whether attention among the new tokens is masked causally.
    pub masked: bool,
}

/// Starts a decode step of one sequence: its tokens join the history of the cache.
pub fn begin_decode(
    token_ids: &mut Vec<u32>,
    tokens: &Vec<u32>,
    offsets: &Vec<Option<i32>>,
) -> (start: DecodeStart)
    ensures
        final(token_ids)@ == old(token_ids)@ + tokens@,
        start.position_offset == (match largest_offset(offsets@) {
            Some(offset) => offset,
            None => 0,
        }),
        start.masked == (tokens@.len() > 1),
{
    extend_rows(token_ids, tokens);
    DecodeStart {
        position_offset: decode_offset(offsets),
        masked: needs_causal_mask(tokens.len()),
    }
}

/// How a prompt starts.
#[derive(Debug, Clone, Copy, PartialEq, Eq, Structural)]
pub struct PrefillStart {
    /// Position of the first token.
    pub position_offset: i32,
    /// Whether the keys and values of earlier tokens are forgotten.
    pub clears_keys: bool,
    /// Whether attention is masked causally from the start. Where the decoder's input is
    /// assembled later, its masks are made then.
    pub masked: bool,
}

/// Starts a planned prompt: the cache forgets its history and, where nothing is left to
/// be assembled, remembers the tokens of the prompt in its place.
pub fn begin_prefill(plan: &PrefillPlan, token_ids: &mut Vec<u32>) -> (start: PrefillStart)
    ensures
        final(token_ids)@ == (if plan.needs_assembly {
            Seq::empty()
        } else {
            ready_tokens(part_views(plan.parts@))
        }),
        start.position_offset == 0,
        start.clears_keys,
        start.masked == (!plan.needs_assembly && ready_tokens(part_views(plan.parts@)).len() > 1),
{
    if plan.needs_assembly {
        *token_ids = Vec::new();
        PrefillStart { position_offset: 0, clears_keys: true, masked: false }
    } else {
        *token_ids = gather_ready_tokens(&plan.parts);
        let masked = needs_causal_mask(token_ids.len());
        PrefillStart { position_offset: 0, clears_keys: true, masked }
    }
}

impl Gemma4LayerwiseAdapter {
    /// Starts a prompt from its parts. The history of the cache is forgotten even where a
    /// part is refused.
    pub fn begin_prompt(&self, parts: &Vec<InputPart>, token_ids: &mut Vec<u32>) -> (outcome:
        Result<(PrefillPlan, PrefillStart), Error>)
        ensures
            crate::error::failed(outcome) == prompt_failure(*self, parts@, 0),
            match outcome {
                Ok((plan, start)) => {
                    &&& part_views(plan.parts@) == planned(*self, parts@)
                    &&& plan.parts@.len() == parts@.len()
                    &&& plan.vision_jobs == vision_parts(part_views(plan.parts@))
                    &&& plan.audio_jobs == audio_parts(part_views(plan.parts@))
                    &&& plan.needs_assembly == (self.vision_depth > 0 || self.audio_depth > 0)
                    &&& final(token_ids)@ == (if plan.needs_assembly {
                        Seq::empty()
                    } else {
                        ready_tokens(planned(*self, parts@))
                    })
                    &&& start.position_offset == 0
                    &&& start.clears_keys
                    &&& start.masked == (!plan.needs_assembly && ready_tokens(
                        planned(*self, parts@),
                    ).len() > 1)
                },
                Err(_) => final(token_ids)@ == Seq::<u32>::empty(),
            },
    {
        *token_ids = Vec::new();
        match self.plan_prefill(parts) {
            Ok(plan) => {
                let start = begin_prefill(&plan, token_ids);
                Ok((plan, start))
            },
            Err(error) => Err(error),
        }
    }
}

/// Ends the assembly of a prompt: the cache remembers its tokens.
pub fn finish_assembly(
    parts: &Vec<PreparedPart>,
    vision: &Vec<(usize, usize)>,
    audio: &Vec<usize>,
    token_ids: &mut Vec<u32>,
)
    requires
        jobs_counted(part_views(parts@), vision@, audio@),
    ensures
        final(token_ids)@ == prompt_tokens(part_views(parts@), vision@, audio@),
{
    *token_ids = assemble_tokens(parts, vision, audio);
}

/// Where no part needs a tower, assembling at once and assembling later give the same
/// tokens.
pub proof fn assembly_is_the_same_without_media(
    parts: Seq<Part>,
    vision: Seq<(usize, usize)>,
    audio: Seq<usize>,
)
    requires
        vision_parts(parts) == 0,
        audio_parts(parts) == 0,
    ensures
        ready_tokens(parts) == prompt_tokens(parts, vision, audio),
    decreases parts.len(),
{
    if parts.len() > 0 {
        assembly_is_the_same_without_media(parts.drop_last(), vision, audio);
        no_jobs_means_ready(parts, parts.len() - 1);
    }
}

/// Which parts of a prompt are accepted, and what becomes of them: text keeps its tokens,
/// pictures and sound that a tower encodes stand for their configured token, and
/// embeddings become as many of these tokens as they have rows.
pub proof fn accepted_parts_are_what_the_model_can_read(
    adapter: Gemma4LayerwiseAdapter,
    part: InputPart,
    vision_jobs: usize,
    audio_jobs: usize,
)
    ensures
        ({
            let plan = part_plan(adapter, part, vision_jobs, audio_jobs);
            &&& part.modality is Text ==> (plan is Ok <==> part.payload is TokenIds)
            &&& part.modality is Text && part.payload is TokenIds ==> plan == Ok::<Part, Failure>(
                Part::Ready(part.payload->TokenIds_0@),
            )
            &&& !(part.modality is Text) && part.payload is TokenIds ==> plan is Err
            &&& part.modality is Image && part.payload is Tensor ==> (plan is Ok <==> {
                &&& part.has_patch_positions
                &&& adapter.config.image_token_id is Some
                &&& adapter.has_vision
            })
            &&& part.modality is Video && part.payload is Tensor ==> (plan is Ok <==> {
                &&& part.has_patch_positions
                &&& adapter.config.video_token_id is Some
                &&& adapter.has_vision
            })
            &&& part.modality is Audio && part.payload is Tensor ==> (plan is Ok <==> {
                &&& part.has_audio_mask
                &&& adapter.config.audio_token_id is Some
                &&& adapter.has_audio
            })
            &&& part.payload is Tensor && plan is Ok ==> match part.modality {
                Modality::Image => plan->Ok_0 == Part::Vision(
                    adapter.config.image_token_id->0 as u32,
                    vision_jobs,
                ),
                Modality::Video => plan->Ok_0 == Part::Vision(
                    adapter.config.video_token_id->0 as u32,
                    vision_jobs,
                ),
                Modality::Audio => plan->Ok_0 == Part::Audio(
                    adapter.config.audio_token_id->0 as u32,
                    audio_jobs,
                ),
                Modality::Text => false,
            }
            &&& !(part.modality is Text) && part.payload is Embeddings ==> (plan is Ok <==> {
                &&& part.payload->mismatch is None
                &&& match part.modality {
                    Modality::Image => adapter.config.image_token_id is Some,
                    Modality::Video => adapter.config.video_token_id is Some,
                    Modality::Audio => adapter.config.audio_token_id is Some,
                    Modality::Text => false,
                }
            })
            &&& part.payload is Embeddings && plan is Ok ==> {
                &&& plan->Ok_0 is Ready
                &&& plan->Ok_0->Ready_0.len() == part.payload->tokens
            }
        }),
{
}

/// A prompt is accepted exactly where each of its parts is, and then every part is
/// planned, in order.
pub proof fn accepted_prompts_are_planned_whole(
    adapter: Gemma4LayerwiseAdapter,
    parts: Seq<InputPart>,
    i: int,
)
    requires
        parts.len() <= usize::MAX,
    ensures
        prompt_failure(adapter, parts, 0) is None <==> forall|k: int|
            0 <= k < parts.len() ==> part_plan(adapter, #[trigger] parts[k], 0, 0) is Ok,
        prompt_failure(adapter, parts, 0) is None ==> planned(adapter, parts).len() == parts.len(),
        prompt_failure(adapter, parts, 0) is None && 0 <= i < parts.len() && parts[i].modality is Text
            ==> planned(adapter, parts)[i] == Part::Ready(parts[i].payload->TokenIds_0@),
{
    refusals_are_found(adapter, parts, 0);
    if prompt_failure(adapter, parts, 0) is None {
        plans_are_whole(adapter, parts, i);
    }
}

proof fn refusals_are_found(adapter: Gemma4LayerwiseAdapter, parts: Seq<InputPart>, from: int)
    requires
        0 <= from,
    ensures
        prompt_failure(adapter, parts, from) is None <==> forall|k: int|
            from <= k < parts.len() ==> part_plan(adapter, #[trigger] parts[k], 0, 0) is Ok,
    decreases parts.len() - from,
{
    if from < parts.len() {
        refusals_are_found(adapter, parts, from + 1);
        let here = parts[from];
    }
}

proof fn plans_are_whole(adapter: Gemma4LayerwiseAdapter, parts: Seq<InputPart>, i: int)
    requires
        forall|k: int| 0 <= k < parts.len() ==> part_plan(adapter, #[trigger] parts[k], 0, 0) is Ok,
    ensures
        planned(adapter, parts).len() == parts.len(),
        0 <= i < parts.len() && parts[i].modality is Text ==> planned(adapter, parts)[i]
            == Part::Ready(parts[i].payload->TokenIds_0@),
    decreases parts.len(),
{
    if parts.len() > 0 {
        let rest = parts.drop_last();
        assert forall|k: int| 0 <= k < rest.len() implies part_plan(adapter, #[trigger] rest[k], 0, 0) is Ok by {
            assert(rest[k] == parts[k]);
        }
        plans_are_whole(adapter, rest, i);
        assert(parts.last() == parts[parts.len() - 1]);
        let before = planned(adapter, rest);
        refusals_ignore_jobs(
            adapter,
            parts.last(),
            vision_parts(before) as usize,
            audio_parts(before) as usize,
        );
        if 0 <= i < rest.len() {
            assert(rest[i] == parts[i]);
        }
    }
}

/// Each part adds its own tokens behind those before it: text its tokens, a vision job
/// one token for every embedding of its images, an audio job one for every embedding.
pub proof fn parts_add_their_tokens(
    parts: Seq<Part>,
    part: Part,
    vision: Seq<(usize, usize)>,
    audio: Seq<usize>,
)
    requires
        part matches Part::Vision(_, job) ==> job < vision.len(),
        part matches Part::Audio(_, job) ==> job < audio.len(),
    ensures
        prompt_tokens(Seq::empty(), vision, audio).len() == 0,
        ({
            let before = prompt_tokens(parts, vision, audio);
            let after = prompt_tokens(parts.push(part), vision, audio);
            &&& after.len() == before.len() + match part {
                Part::Ready(tokens) => tokens.len() as int,
                Part::Vision(_, job) => vision[job as int].0 * vision[job as int].1,
                Part::Audio(_, job) => audio[job as int] as int,
            }
            &&& forall|i: int| 0 <= i < before.len() ==> #[trigger] after[i] == before[i]
            &&& forall|i: int|
                before.len() <= i < after.len() ==> #[trigger] after[i] == match part {
                    Part::Ready(tokens) => tokens[i - before.len()],
                    Part::Vision(token, _) => token,
                    Part::Audio(token, _) => token,
                }
        }),
{
    assert(parts.push(part).drop_last() =~= parts);
    if part is Vision {
        let job = part->Vision_1 as int;
        assert(0 <= vision[job].0 * vision[job].1) by (nonlinear_arith)
            requires
                0 <= vision[job].0,
                0 <= vision[job].1,
        ;
    }
}

/// Tokens that stand for media are padding to the per-layer embeddings, and all others
/// are themselves.
pub proof fn media_tokens_are_padding(adapter: Gemma4LayerwiseAdapter, token: u32)
    ensures
        adapter.config.image_token_id == Some(token as i32) && token <= i32::MAX
            ==> adapter.safe_token(token) == adapter.config.pad_token_id,
        adapter.config.video_token_id == Some(token as i32) && token <= i32::MAX
            ==> adapter.safe_token(token) == adapter.config.pad_token_id,
        adapter.config.audio_token_id == Some(token as i32) && token <= i32::MAX
            ==> adapter.safe_token(token) == adapter.config.pad_token_id,
        !(adapter.config.image_token_id is Some && adapter.config.image_token_id->0 == token) && !(
        adapter.config.video_token_id is Some && adapter.config.video_token_id->0 == token) && !(
        adapter.config.audio_token_id is Some && adapter.config.audio_token_id->0 == token)
            ==> adapter.safe_token(token) == token,
{
}

/// Decoding goes on behind the furthest layer: no layer has cached more, and some layer
/// has cached that much; there is no offset exactly where no layer has cached anything.
pub proof fn decoding_goes_on_behind_the_furthest_layer(offsets: Seq<Option<i32>>)
    ensures
        largest_offset(offsets) is None <==> forall|i: int|
            0 <= i < offsets.len() ==> (#[trigger] offsets[i]) is None,
        largest_offset(offsets) matches Some(largest) ==> {
            &&& forall|i: int|
                0 <= i < offsets.len() ==> ((#[trigger] offsets[i]) is Some ==> offsets[i]->0
                    <= largest)
            &&& exists|i: int| 0 <= i < offsets.len() && #[trigger] offsets[i] == Some(largest)
        },
    decreases offsets.len(),
{
    if offsets.len() > 0 {
        let rest = offsets.drop_last();
        decoding_goes_on_behind_the_furthest_layer(rest);
        let last = offsets[offsets.len() - 1];
        assert forall|i: int| 0 <= i < rest.len() implies #[trigger] rest[i] == offsets[i] by {
        }
        assert forall|i: int| 0 <= i < offsets.len() implies #[trigger] offsets[i] == if i < rest.len() {
            rest[i]
        } else {
            last
        } by {
        }
        if largest_offset(offsets) is Some {
            let largest = largest_offset(offsets)->0;
            if last != Some(largest) {
                let i = choose|i: int| 0 <= i < rest.len() && #[trigger] rest[i] == Some(largest);
                assert(offsets[i] == Some(largest));
            }
        }
    }
}

/// Parts for the towers are counted one by one.
pub proof fn tower_parts_are_counted(parts: Seq<Part>, part: Part)
    ensures
        vision_parts(Seq::empty()) == 0,
        audio_parts(Seq::empty()) == 0,
        vision_parts(parts.push(part)) == vision_parts(parts) + if part is Vision {
            1int
        } else {
            0
        },
        audio_parts(parts.push(part)) == audio_parts(parts) + if part is Audio {
            1int
        } else {
            0
        },
{
    assert(parts.push(part).drop_last() =~= parts);
}

/// A prompt starts with the first group that has something to run on: pictures before
/// sound, and a part that is ready only where no tower runs.
pub proof fn prompts_start_with_the_first_tower(plan: PrefillPlan, first: FirstHidden)
    requires
        call_ensures(first_hidden, (&plan,), first),
    ensures
        plan.vision_jobs > 0 ==> first is Vision,
        first is Audio <==> plan.vision_jobs == 0 && plan.audio_jobs > 0,
        first is Ready <==> plan.vision_jobs == 0 && plan.audio_jobs == 0,
{
}

/// A single token sees all that came before it and needs no mask; several tokens must not
/// see one another's future.
pub proof fn single_tokens_need_no_mask(tokens: usize, masked: bool)
    requires
        call_ensures(needs_causal_mask, (tokens,), masked),
    ensures
        masked <==> tokens >= 2,
{
}

/// Decoding starts where the furthest layer ends, and at the start where no layer has
/// cached anything.
pub proof fn decoding_starts_where_the_furthest_layer_ends(
    offsets: Vec<Option<i32>>,
    offset: i32,
    i: int,
)
    requires
        call_ensures(decode_offset, (&offsets,), offset),
        0 <= i < offsets@.len(),
    ensures
        offsets@[i] is Some ==> offsets@[i]->0 <= offset,
        (forall|k: int| 0 <= k < offsets@.len() ==> (#[trigger] offsets@[k]) is None) ==> offset
            == 0,
        (exists|k: int| 0 <= k < offsets@.len() && (#[trigger] offsets@[k]) is Some)
            ==> offsets@.contains(Some(offset)),
{
    decoding_goes_on_behind_the_furthest_layer(offsets@);
}

/// Media tokens of a prompt are padding to the per-layer embeddings, token by token.
pub proof fn per_layer_ids_stand_for_their_tokens(
    adapter: Gemma4LayerwiseAdapter,
    tokens: Vec<u32>,
    safe: Vec<i64>,
    i: int,
)
    requires
        call_ensures(
            Gemma4LayerwiseAdapter::media_safe_per_layer_ids,
            (&adapter, &tokens),
            safe,
        ),
        0 <= i < tokens@.len(),
    ensures
        safe@.len() == tokens@.len(),
        safe@[i] == tokens@[i] || safe@[i] == adapter.config.pad_token_id,
        safe@[i] == adapter.safe_token(tokens@[i]),
{
    let here = safe@[i];
}

} // verus!
