//! Failures of loaders, placement and execution.

use vstd::prelude::*;
use vstd::string::StringExecFns;

use crate::text::usize_text;

verus! {

/// Number of keys that a strict-load message lists.
pub const LISTED_KEY_LIMIT: usize = 50;

/// Error type used by loaders and execution helpers.
#[derive(Debug)]
pub enum Error {
    /// Invalid or failed layerwise host offload.
    LlamaHostOffload(String),
    /// Invalid module-to-checkpoint or resident-lease binding.
    ModuleBinding(String),
    /// Persistent checkpoint catalog, mapping, or materialization failure.
    WeightStore(String),
    /// Invalid architecture-independent offload planning request.
    Offload(String),
    /// Invalid or failed weight residency operation.
    Residency(String),
    /// Invalid runtime parallel topology, tensor placement, or partition request.
    Parallel(String),
    /// Invalid or unsupported checkpoint quantization request.
    Quantization(String),
    /// The model type is not supported.
    UnsupportedModelType(String),
    /// The model family is recognized but this specific architecture is unsupported.
    UnsupportedArchitecture(String),
    /// Media processor configuration or input error.
    Processor(String),
    /// Embedded tokenizer metadata is invalid or cannot be reconstructed.
    GgufTokenizer(String),
    /// Strict weight loading found missing parameters or unused checkpoint tensors.
    StrictLoadValidation {
        /// Model parameters that were not populated from the checkpoint.
        missing: Vec<String>,
        /// Checkpoint tensors that were not consumed by the model.
        unused: Vec<String>,
    },
    /// Error reported by the array runtime.
    Exception(String),
    /// Filesystem error.
    Io(String),
    /// Configuration could not be decoded.
    Deserialize(String),
    /// Weights could not be read.
    LoadWeights(String),
    /// Chat-template or tokenizer error.
    Template(String),
    /// Any other loader failure.
    Other(String),
}

/// The mathematical value of an [`Error`].
pub enum Failure {
    LlamaHostOffload(Seq<char>),
    ModuleBinding(Seq<char>),
    WeightStore(Seq<char>),
    Offload(Seq<char>),
    Residency(Seq<char>),
    Parallel(Seq<char>),
    Quantization(Seq<char>),
    UnsupportedModelType(Seq<char>),
    UnsupportedArchitecture(Seq<char>),
    Processor(Seq<char>),
    GgufTokenizer(Seq<char>),
    StrictLoadValidation(Seq<Seq<char>>, Seq<Seq<char>>),
    Exception(Seq<char>),
    Io(Seq<char>),
    Deserialize(Seq<char>),
    LoadWeights(Seq<char>),
    Template(Seq<char>),
    Other(Seq<char>),
}

/// The characters of every text in a list.
pub open spec fn texts(list: Seq<String>) -> Seq<Seq<char>> {
    list.map_values(|text: String| text@)
}

impl View for Error {
    type V = Failure;

    open spec fn view(&self) -> Failure {
        match *self {
            Error::LlamaHostOffload(text) => Failure::LlamaHostOffload(text@),
            Error::ModuleBinding(text) => Failure::ModuleBinding(text@),
            Error::WeightStore(text) => Failure::WeightStore(text@),
            Error::Offload(text) => Failure::Offload(text@),
            Error::Residency(text) => Failure::Residency(text@),
            Error::Parallel(text) => Failure::Parallel(text@),
            Error::Quantization(text) => Failure::Quantization(text@),
            Error::UnsupportedModelType(text) => Failure::UnsupportedModelType(text@),
            Error::UnsupportedArchitecture(text) => Failure::UnsupportedArchitecture(text@),
            Error::Processor(text) => Failure::Processor(text@),
            Error::GgufTokenizer(text) => Failure::GgufTokenizer(text@),
            Error::StrictLoadValidation { missing, unused } => Failure::StrictLoadValidation(
                texts(missing@),
                texts(unused@),
            ),
            Error::Exception(text) => Failure::Exception(text@),
            Error::Io(text) => Failure::Io(text@),
            Error::Deserialize(text) => Failure::Deserialize(text@),
            Error::LoadWeights(text) => Failure::LoadWeights(text@),
            Error::Template(text) => Failure::Template(text@),
            Error::Other(text) => Failure::Other(text@),
        }
    }
}

/// The failure of a fallible operation, or nothing when it succeeded.
pub open spec fn failed<T>(outcome: Result<T, Error>) -> Option<Failure> {
    match outcome {
        Ok(_) => None,
        Err(error) => Some(error@),
    }
}

/// The first `count` keys, each on an indented line of its own.
pub open spec fn key_lines(keys: Seq<Seq<char>>, count: int) -> Seq<char>
    decreases count,
{
    if count <= 0 {
        Seq::empty()
    } else if count == 1 {
        "  "@ + keys[0]
    } else {
        key_lines(keys, count - 1) + "\n"@ + "  "@ + keys[count - 1]
    }
}

/// The keys that a strict-load message lists: at most fifty, then how many more there
/// are.
pub open spec fn listed_keys(keys: Seq<Seq<char>>) -> Seq<char> {
    if keys.len() == 0 {
        "  <none>"@
    } else if keys.len() <= LISTED_KEY_LIMIT {
        key_lines(keys, keys.len() as int)
    } else {
        key_lines(keys, LISTED_KEY_LIMIT as int) + "\n"@ + "  ... and "@ + crate::text::decimal(
            (keys.len() - LISTED_KEY_LIMIT) as nat,
        ) + " more"@
    }
}

/// Lists keys for a strict-load message.
pub fn format_keys(keys: &Vec<String>) -> (text: String)
    ensures
        text@ == listed_keys(texts(keys@)),
{
    if keys.len() == 0 {
        return "  <none>".to_owned();
    }
    let shown: usize = if keys.len() > LISTED_KEY_LIMIT {
        LISTED_KEY_LIMIT
    } else {
        keys.len()
    };
    let mut text = String::new();
    let mut index: usize = 0;
    while index < shown
        invariant
            index <= shown <= keys@.len(),
            text@ == key_lines(texts(keys@), index as int),
        decreases shown - index,
    {
        if index > 0 {
            text.append("\n");
        }
        text.append("  ");
        text.append(keys[index].as_str());
        assert(texts(keys@)[index as int] == keys@[index as int]@);
        index = index + 1;
        assert(text@ =~= key_lines(texts(keys@), index as int));
    }
    if keys.len() > shown {
        text.append("\n");
        text.append("  ... and ");
        text.append(usize_text(keys.len() - shown).as_str());
        text.append(" more");
    }
    text
}

/// What a failure says.
pub open spec fn message_of(failure: Failure) -> Seq<char> {
    match failure {
        Failure::Parallel(text) => "parallel placement error: "@ + text,
        Failure::Quantization(text) => "checkpoint quantization error: "@ + text,
        Failure::UnsupportedModelType(text) => "unsupported model type: "@ + text,
        Failure::UnsupportedArchitecture(text) => "unsupported model architecture: "@ + text,
        Failure::Processor(text) => "media processor error: "@ + text,
        Failure::GgufTokenizer(text) => "GGUF tokenizer error: "@ + text,
        Failure::StrictLoadValidation(missing, unused) =>
            "strict weight-load validation failed: "@ + crate::text::decimal(missing.len())
                + " missing parameters, "@ + crate::text::decimal(unused.len())
                + " unused weights\nmissing:\n"@ + listed_keys(missing) + "\nunused:\n"@
                + listed_keys(unused),
        Failure::LlamaHostOffload(text) => text,
        Failure::ModuleBinding(text) => text,
        Failure::WeightStore(text) => text,
        Failure::Offload(text) => text,
        Failure::Residency(text) => text,
        Failure::Exception(text) => text,
        Failure::Io(text) => text,
        Failure::Deserialize(text) => text,
        Failure::LoadWeights(text) => text,
        Failure::Template(text) => text,
        Failure::Other(text) => text,
    }
}

fn prefixed(prefix: &str, text: &String) -> (message: String)
    ensures
        message@ == prefix@ + text@,
{
    let mut message = prefix.to_owned();
    message.append(text.as_str());
    message
}

impl Error {
    /// Returns what the failure says.
    pub fn message(&self) -> (message: String)
        ensures
            message@ == message_of(self@),
    {
        match self {
            Error::Parallel(text) => prefixed("parallel placement error: ", text),
            Error::Quantization(text) => prefixed("checkpoint quantization error: ", text),
            Error::UnsupportedModelType(text) => prefixed("unsupported model type: ", text),
            Error::UnsupportedArchitecture(text) => prefixed(
                "unsupported model architecture: ",
                text,
            ),
            Error::Processor(text) => prefixed("media processor error: ", text),
            Error::GgufTokenizer(text) => prefixed("GGUF tokenizer error: ", text),
            Error::StrictLoadValidation { missing, unused } => {
                let mut message = "strict weight-load validation failed: ".to_owned();
                message.append(usize_text(missing.len()).as_str());
                message.append(" missing parameters, ");
                message.append(usize_text(unused.len()).as_str());
                message.append(" unused weights\nmissing:\n");
                message.append(format_keys(missing).as_str());
                message.append("\nunused:\n");
                message.append(format_keys(unused).as_str());
                message
            },
            Error::LlamaHostOffload(text) => text.clone(),
            Error::ModuleBinding(text) => text.clone(),
            Error::WeightStore(text) => text.clone(),
            Error::Offload(text) => text.clone(),
            Error::Residency(text) => text.clone(),
            Error::Exception(text) => text.clone(),
            Error::Io(text) => text.clone(),
            Error::Deserialize(text) => text.clone(),
            Error::LoadWeights(text) => text.clone(),
            Error::Template(text) => text.clone(),
            Error::Other(text) => text.clone(),
        }
    }
}

/// An error says what it carries: its message ends with its own text.
pub proof fn errors_say_what_they_carry(text: Seq<char>)
    ensures
        text.is_suffix_of(message_of(Failure::Parallel(text))),
        text.is_suffix_of(message_of(Failure::Quantization(text))),
        text.is_suffix_of(message_of(Failure::UnsupportedModelType(text))),
        text.is_suffix_of(message_of(Failure::UnsupportedArchitecture(text))),
        text.is_suffix_of(message_of(Failure::Processor(text))),
        text.is_suffix_of(message_of(Failure::GgufTokenizer(text))),
        message_of(Failure::Exception(text)) == text,
        message_of(Failure::Io(text)) == text,
        message_of(Failure::Residency(text)) == text,
        message_of(Failure::Offload(text)) == text,
        message_of(Failure::WeightStore(text)) == text,
{
    ends_with(message_of(Failure::Parallel(text)), "parallel placement error: "@, text);
    ends_with(message_of(Failure::Quantization(text)), "checkpoint quantization error: "@, text);
    ends_with(message_of(Failure::UnsupportedModelType(text)), "unsupported model type: "@, text);
    ends_with(
        message_of(Failure::UnsupportedArchitecture(text)),
        "unsupported model architecture: "@,
        text,
    );
    ends_with(message_of(Failure::Processor(text)), "media processor error: "@, text);
    ends_with(message_of(Failure::GgufTokenizer(text)), "GGUF tokenizer error: "@, text);
}

proof fn ends_with(message: Seq<char>, start: Seq<char>, text: Seq<char>)
    requires
        message == start + text,
    ensures
        text.is_suffix_of(message),
{
    assert(message.subrange(message.len() - text.len(), message.len() as int) =~= text);
}

/// A strict load names every key that it misses or leaves over, up to the limit: each of
/// the first keys stands in its list.
pub proof fn listed_keys_are_named(keys: Seq<Seq<char>>, i: int)
    requires
        0 <= i < keys.len(),
        i < LISTED_KEY_LIMIT,
    ensures
        crate::text::occurs(listed_keys(keys), keys[i]),
{
    let count = if keys.len() <= LISTED_KEY_LIMIT {
        keys.len() as int
    } else {
        LISTED_KEY_LIMIT as int
    };
    let (before, after) = keys_stand_in_their_lines(keys, count, i);
    let tail = if keys.len() <= LISTED_KEY_LIMIT {
        Seq::<char>::empty()
    } else {
        "\n"@ + "  ... and "@ + crate::text::decimal((keys.len() - LISTED_KEY_LIMIT) as nat)
            + " more"@
    };
    assert(listed_keys(keys) =~= before + keys[i] + (after + tail));
    crate::text::enclosed_patterns_occur(before, keys[i], after + tail);
}

proof fn keys_stand_in_their_lines(keys: Seq<Seq<char>>, count: int, i: int) -> (around: (
    Seq<char>,
    Seq<char>,
))
    requires
        0 <= i < count <= keys.len(),
    ensures
        key_lines(keys, count) == around.0 + keys[i] + around.1,
    decreases count,
{
    if i == count - 1 {
        let before = if count == 1 {
            "  "@
        } else {
            key_lines(keys, count - 1) + "\n"@ + "  "@
        };
        assert(key_lines(keys, count) =~= before + keys[i] + Seq::<char>::empty());
        (before, Seq::empty())
    } else {
        let (before, after) = keys_stand_in_their_lines(keys, count - 1, i);
        let tail = "\n"@ + "  "@ + keys[count - 1];
        assert(key_lines(keys, count) =~= before + keys[i] + (after + tail));
        (before, after + tail)
    }
}

} // verus!
