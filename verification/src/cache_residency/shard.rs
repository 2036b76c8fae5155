//! Names, headers, digests and paths of safetensors shards.

use vstd::prelude::*;
use vstd::string::{StrSliceExecFns, StringExecFns};

use crate::cache_residency::block::{
    CacheArray, CacheBlockArrays, CacheBlockId, CacheRankIdentity, CacheRepresentation,
};
use crate::cache_residency::catalog::DiskLocation;
use crate::cache_residency::error::{CacheFailure, CacheResidencyError};
use crate::digest::digest_hex;
use crate::text::{
    chars_of, decimal_text, numeral_text, padded_text, same_text, signed_text, usize_text,
};

verus! {

/// Largest safetensors header that a prompt-cache shard may have.
pub const MAX_PROMPT_CACHE_SHARD_HEADER_BYTES: u64 = 1048576;

/// One tensor that a shard header describes.
#[derive(Debug, Clone, PartialEq, Eq)]
pub struct ShardTensor {
    /// Tensor name.
    pub name: String,
    /// Stored element type.
    pub dtype: String,
    /// Dimensions, outermost first.
    pub shape: Vec<usize>,
    /// First payload byte.
    pub start: usize,
    /// End of the payload bytes.
    pub end: usize,
}

/// The mathematical value of a [`ShardTensor`].
pub struct TensorEntry {
    pub name: Seq<char>,
    pub dtype: Seq<char>,
    pub shape: Seq<usize>,
    pub start: usize,
    pub end: usize,
}

impl View for ShardTensor {
    type V = TensorEntry;

    open spec fn view(&self) -> TensorEntry {
        TensorEntry {
            name: self.name@,
            dtype: self.dtype@,
            shape: self.shape@,
            start: self.start,
            end: self.end,
        }
    }
}

/// What a shard header describes.
#[derive(Debug, Clone, PartialEq, Eq)]
pub struct ShardHeader {
    /// The tensors, each name once.
    pub tensors: Vec<ShardTensor>,
    /// Payload bytes of all tensors together.
    pub payload_len: usize,
}

/// The mathematical value of a [`ShardHeader`]: tensors by name.
pub struct HeaderContents {
    pub tensors: Map<Seq<char>, TensorEntry>,
    pub payload_len: usize,
}

/// Whether a list has a tensor of a name.
pub open spec fn has_tensor(tensors: Seq<ShardTensor>, name: Seq<char>) -> bool {
    exists|i: int| 0 <= i < tensors.len() && (#[trigger] tensors[i]).name@ == name
}

/// Whether no two tensors share a name.
pub open spec fn names_distinct(tensors: Seq<ShardTensor>) -> bool {
    forall|i: int, j: int|
        0 <= i < j < tensors.len() ==> (#[trigger] tensors[i]).name@ != (#[trigger] tensors[j]).name@
}

/// Tensors by name.
pub open spec fn tensors_by_name(tensors: Seq<ShardTensor>) -> Map<Seq<char>, TensorEntry> {
    Map::new(
        |name: Seq<char>| has_tensor(tensors, name),
        |name: Seq<char>|
            tensors[choose|i: int|
                0 <= i < tensors.len() && (#[trigger] tensors[i]).name@ == name]@,
    )
}

impl View for ShardHeader {
    type V = HeaderContents;

    open spec fn view(&self) -> HeaderContents {
        HeaderContents {
            tensors: tensors_by_name(self.tensors@),
            payload_len: self.payload_len,
        }
    }
}

/// What the safetensors header parser makes of header bytes, where it accepts them.
pub uninterp spec fn header_contents(header: Seq<u8>) -> Option<HeaderContents>;

/// Calls `serde_json::from_slice` for `safetensors::tensor::Metadata` and lists its
/// tensors with `offset_keys` and `tensors`. Whether the bytes are accepted, and the
/// tensors by name, depend on the bytes alone. The wording of a refusal and the order
/// of empty tensors at one offset do not, and nothing is said of them.
#[verifier::external_body]
fn parse_header(header: &[u8]) -> (parsed: Result<ShardHeader, String>)
    ensures
        match parsed {
            Ok(contents) => header_contents(header@) == Some(contents@) && names_distinct(
                contents.tensors@,
            ),
            Err(_) => header_contents(header@) is None,
        },
{
    let metadata = serde_json::from_slice::<safetensors::tensor::Metadata>(header)
        .map_err(|error| error.to_string())?;
    let by_name = metadata.tensors();
    let tensors = metadata.offset_keys().into_iter().map(|name| {
        let info = by_name[&name];
        let (start, end) = info.data_offsets;
        let (dtype, shape) = (format!("{:?}", info.dtype), info.shape.clone());
        ShardTensor { name, dtype, shape, start, end }
    }).collect();
    Ok(ShardHeader { tensors, payload_len: metadata.data_len() })
}

/// Whether the safetensors reader accepts a whole shard.
pub uninterp spec fn shard_accepted(shard: Seq<u8>) -> bool;

/// The header length that the first eight bytes of a shard give.
pub open spec fn stated_header_len(shard: Seq<u8>) -> int {
    vstd::bytes::spec_u64_from_le_bytes(shard.take(8)) as int
}

/// Whether a shard is long enough for its header.
pub open spec fn holds_header(shard: Seq<u8>) -> bool {
    shard.len() >= 8 && 8 + stated_header_len(shard) <= shard.len()
}

/// The bytes of a shard's header.
pub open spec fn header_bytes(shard: Seq<u8>) -> Seq<u8> {
    shard.subrange(8, 8 + stated_header_len(shard))
}

/// Whether the shard that a header describes has a size at all: payload, header and
/// length field together fit a `usize`. A shard without a header that the parser accepts
/// describes none.
pub open spec fn described_size_fits(shard: Seq<u8>) -> bool {
    holds_header(shard) ==> (header_contents(header_bytes(shard)) matches Some(contents)
        ==> contents.payload_len + 8 + stated_header_len(shard) <= usize::MAX)
}

/// Calls `safetensors::SafeTensors::deserialize` and keeps only whether it accepts the
/// shard, which depends on the bytes alone. An accepted shard holds a header that the
/// parser accepts, and ends where the payload does. The wording of a refusal does not
/// depend on the bytes alone, and nothing is said of it. The reader adds up the described
/// size without a check, so that size has to fit.
#[verifier::external_body]
fn deserialize_shard(shard: &[u8]) -> (accepted: Result<(), String>)
    requires
        described_size_fits(shard@),
    ensures
        accepted is Ok <==> shard_accepted(shard@),
        accepted is Ok ==> holds_header(shard@) && (header_contents(header_bytes(shard@)) matches
            Some(contents) && contents.payload_len + 8 + stated_header_len(shard@) == shard@.len()),
{
    safetensors::SafeTensors::deserialize(shard).map(|_| ()).map_err(|error| error.to_string())
}

/// Names of the two arrays of a representation.
pub open spec fn array_names_of(representation: CacheRepresentation) -> (Seq<char>, Seq<char>) {
    match representation {
        CacheRepresentation::KeyValue => ("keys"@, "values"@),
        CacheRepresentation::CompressedLatentRotary => ("latent"@, "rotary_key"@),
    }
}

/// Returns the names of the two arrays of a representation.
pub fn array_names(representation: CacheRepresentation) -> (names: (&'static str, &'static str))
    ensures
        (names.0@, names.1@) == array_names_of(representation),
{
    match representation {
        CacheRepresentation::KeyValue => ("keys", "values"),
        CacheRepresentation::CompressedLatentRotary => ("latent", "rotary_key"),
    }
}

/// The runtime name of a stored element type; types without one keep their own.
pub open spec fn runtime_dtype(stored: Seq<char>) -> Seq<char> {
    if stored == "BOOL"@ {
        "Bool"@
    } else if stored == "U8"@ {
        "Uint8"@
    } else if stored == "U16"@ {
        "Uint16"@
    } else if stored == "U32"@ {
        "Uint32"@
    } else if stored == "U64"@ {
        "Uint64"@
    } else if stored == "I8"@ {
        "Int8"@
    } else if stored == "I16"@ {
        "Int16"@
    } else if stored == "I32"@ {
        "Int32"@
    } else if stored == "I64"@ {
        "Int64"@
    } else if stored == "F16"@ {
        "Float16"@
    } else if stored == "BF16"@ {
        "Bfloat16"@
    } else if stored == "F32"@ {
        "Float32"@
    } else if stored == "F64"@ {
        "Float64"@
    } else {
        stored
    }
}

/// Returns the runtime name of a stored element type.
pub fn stored_dtype_name(stored: &str) -> (name: String)
    ensures
        name@ == runtime_dtype(stored@),
{
    let name = if same_text(stored, "BOOL") {
        "Bool"
    } else if same_text(stored, "U8") {
        "Uint8"
    } else if same_text(stored, "U16") {
        "Uint16"
    } else if same_text(stored, "U32") {
        "Uint32"
    } else if same_text(stored, "U64") {
        "Uint64"
    } else if same_text(stored, "I8") {
        "Int8"
    } else if same_text(stored, "I16") {
        "Int16"
    } else if same_text(stored, "I32") {
        "Int32"
    } else if same_text(stored, "I64") {
        "Int64"
    } else if same_text(stored, "F16") {
        "Float16"
    } else if same_text(stored, "BF16") {
        "Bfloat16"
    } else if same_text(stored, "F32") {
        "Float32"
    } else if same_text(stored, "F64") {
        "Float64"
    } else {
        stored
    };
    name.to_owned()
}

/// Little-endian bytes of token ids, one after another.
pub open spec fn token_bytes(tokens: Seq<u32>) -> Seq<u8>
    decreases tokens.len(),
{
    if tokens.len() == 0 {
        Seq::empty()
    } else {
        token_bytes(tokens.drop_last()) + vstd::bytes::spec_u32_to_le_bytes(tokens.last())
    }
}

/// The identity of a token prefix: the hexadecimal digest of its token bytes.
pub open spec fn prefix_identity(tokens: Seq<u32>) -> Seq<char> {
    crate::text::hex_of(crate::digest::sha256_digest(token_bytes(tokens)))
}

/// Different prefixes are hashed from different bytes, so two prefixes share an
/// identity only where the digest itself collides.
pub proof fn token_bytes_are_injective(left: Seq<u32>, right: Seq<u32>)
    requires
        token_bytes(left) == token_bytes(right),
    ensures
        left == right,
    decreases left.len(),
{
    token_bytes_length(left);
    token_bytes_length(right);
    if left.len() > 0 {
        vstd::bytes::lemma_auto_spec_u32_to_from_le_bytes();
        let l = token_bytes(left.drop_last());
        let r = token_bytes(right.drop_last());
        token_bytes_length(left.drop_last());
        token_bytes_length(right.drop_last());
        let last_left = vstd::bytes::spec_u32_to_le_bytes(left.last());
        let last_right = vstd::bytes::spec_u32_to_le_bytes(right.last());
        assert(l =~= token_bytes(left).take(l.len() as int));
        assert(r =~= token_bytes(right).take(r.len() as int));
        assert(last_left =~= token_bytes(left).skip(l.len() as int));
        assert(last_right =~= token_bytes(right).skip(r.len() as int));
        assert(vstd::bytes::spec_u32_from_le_bytes(last_left) == left.last());
        assert(vstd::bytes::spec_u32_from_le_bytes(last_right) == right.last());
        token_bytes_are_injective(left.drop_last(), right.drop_last());
        assert(left =~= left.drop_last().push(left.last()));
        assert(right =~= right.drop_last().push(right.last()));
    } else {
        assert(left =~= right);
    }
}

proof fn token_bytes_length(tokens: Seq<u32>)
    ensures
        token_bytes(tokens).len() == 4 * tokens.len(),
    decreases tokens.len(),
{
    vstd::bytes::lemma_auto_spec_u32_to_from_le_bytes();
    if tokens.len() > 0 {
        token_bytes_length(tokens.drop_last());
        assert(vstd::bytes::spec_u32_to_le_bytes(tokens.last()).len() == 4);
    }
}

/// Returns the identity of a token prefix.
pub fn hash_token_ids(tokens: &[u32]) -> (identity: String)
    ensures
        identity@ == prefix_identity(tokens@),
{
    let mut bytes: Vec<u8> = Vec::new();
    let mut index: usize = 0;
    while index < tokens.len()
        invariant
            index <= tokens@.len(),
            bytes@ == token_bytes(tokens@.take(index as int)),
        decreases tokens@.len() - index,
    {
        let mut encoded = vstd::bytes::u32_to_le_bytes(tokens[index]);
        bytes.append(&mut encoded);
        assert(tokens@.take(index + 1).drop_last() =~= tokens@.take(index as int));
        index = index + 1;
    }
    assert(tokens@.take(index as int) =~= tokens@);
    digest_hex(bytes.as_slice())
}

/// Whether a character is a lower-case hexadecimal digit.
pub open spec fn is_hex_char(c: char) -> bool {
    ('0' <= c && c <= '9') || ('a' <= c && c <= 'f')
}

/// Whether a text is a lower-case hexadecimal SHA-256 digest.
pub open spec fn is_digest_text(text: Seq<char>) -> bool {
    text.len() == 64 && forall|i: int| 0 <= i < text.len() ==> is_hex_char(#[trigger] text[i])
}

/// Answers whether a text is a lower-case hexadecimal SHA-256 digest.
pub fn is_sha256_hex(text: &str) -> (digest: bool)
    ensures
        digest == is_digest_text(text@),
{
    let chars = chars_of(text);
    if chars.len() != 64 {
        return false;
    }
    let mut index: usize = 0;
    while index < chars.len()
        invariant
            chars@ == text@,
            index <= chars@.len(),
            forall|i: int| 0 <= i < index ==> is_hex_char(#[trigger] chars@[i]),
        decreases chars@.len() - index,
    {
        let c = chars[index];
        if !(('0' <= c && c <= '9') || ('a' <= c && c <= 'f')) {
            assert(!is_hex_char(chars@[index as int]));
            return false;
        }
        index = index + 1;
    }
    true
}

/// Every digest that this crate renders is a digest text.
pub proof fn digests_are_digest_texts(bytes: Seq<u8>)
    requires
        bytes.len() == 32,
    ensures
        is_digest_text(crate::text::hex_of(bytes)),
{
    let text = crate::text::hex_of(bytes);
    assert forall|i: int| 0 <= i < text.len() implies is_hex_char(#[trigger] text[i]) by {}
}

/// Where the payload of a shard starts.
pub open spec fn payload_start(header_len: u64) -> int {
    8 + header_len
}

/// Why a shard's header length is refused, if it is.
pub open spec fn header_length_failure(
    path: Seq<char>,
    file_len: u64,
    header_len: u64,
) -> Option<CacheFailure> {
    if header_len == 0 || header_len > MAX_PROMPT_CACHE_SHARD_HEADER_BYTES {
        Some(
            CacheFailure::MalformedShard(
                path,
                "safetensors header length "@ + crate::text::decimal(header_len as nat)
                    + " exceeds the prompt-cache bound"@,
            ),
        )
    } else if payload_start(header_len) > file_len {
        Some(
            CacheFailure::MalformedShard(path, "safetensors header extends beyond the file"@),
        )
    } else {
        None
    }
}

/// Checks the header length of a shard from its first eight bytes, before the header
/// is read.
pub fn check_header_length(path: &String, file_len: u64, length_bytes: &[u8]) -> (outcome: Result<
    u64,
    CacheResidencyError,
>)
    requires
        length_bytes@.len() == 8,
    ensures
        ({
            let header_len = vstd::bytes::spec_u64_from_le_bytes(length_bytes@);
            &&& crate::cache_residency::error::failure_of(outcome) == header_length_failure(
                path@,
                file_len,
                header_len,
            )
            &&& outcome matches Ok(length) ==> length == header_len
        }),
{
    let header_len: u64 = vstd::bytes::u64_from_le_bytes(length_bytes);
    if header_len == 0 || header_len > MAX_PROMPT_CACHE_SHARD_HEADER_BYTES {
        let mut reason = "safetensors header length ".to_owned();
        reason.append(decimal_text(header_len).as_str());
        reason.append(" exceeds the prompt-cache bound");
        return Err(CacheResidencyError::MalformedShard { path: path.clone(), reason });
    }
    if 8 + header_len > file_len {
        return Err(
            CacheResidencyError::MalformedShard {
                path: path.clone(),
                reason: "safetensors header extends beyond the file".to_owned(),
            },
        );
    }
    Ok(header_len)
}

/// Reads what a shard header describes. A refusal names the shard and repeats the
/// parser's message.
pub fn read_header(path: &String, header: &[u8]) -> (outcome: Result<
    ShardHeader,
    CacheResidencyError,
>)
    ensures
        match header_contents(header@) {
            Some(contents) => outcome matches Ok(read) && read@ == contents && names_distinct(
                read.tensors@,
            ),
            None => outcome matches Err(error) && error@ matches CacheFailure::MalformedShard(
                at,
                reason,
            ) && at == path@,
        },
{
    match parse_header(header) {
        Ok(contents) => Ok(contents),
        Err(reason) => Err(CacheResidencyError::MalformedShard { path: path.clone(), reason }),
    }
}

/// Checks a whole shard that is mapped into memory. A shard is accepted where the reader
/// accepts it; one that is too short for its header, whose header is refused, whose
/// described size fits no `usize`, or that is not as long as described, never is. A
/// refusal names the shard and repeats the reader's message, where the reader was asked.
pub fn check_mapped_shard(path: &String, shard: &[u8]) -> (outcome: Result<(), CacheResidencyError>)
    ensures
        outcome is Ok <==> described_size_fits(shard@) && shard_accepted(shard@),
        !holds_header(shard@) ==> outcome is Err,
        header_contents(header_bytes(shard@)) is None ==> outcome is Err,
        header_contents(header_bytes(shard@)) matches Some(contents) ==> contents.payload_len + 8
            + stated_header_len(shard@) != shard@.len() ==> outcome is Err,
        outcome matches Err(error) ==> error@ matches CacheFailure::MalformedShard(at, reason)
            && at == path@,
{
    if shard.len() >= 8 {
        let length_bytes = vstd::slice::slice_subrange(shard, 0, 8);
        assert(length_bytes@ =~= shard@.take(8));
        let header_len: u64 = vstd::bytes::u64_from_le_bytes(length_bytes);
        let rest: usize = shard.len() - 8;
        if header_len <= rest as u64 {
            let start: usize = 8 + header_len as usize;
            let header = vstd::slice::slice_subrange(shard, 8, start);
            assert(header@ =~= header_bytes(shard@));
            match parse_header(header) {
                Ok(contents) => {
                    if contents.payload_len > usize::MAX - start {
                        return Err(
                            CacheResidencyError::MalformedShard {
                                path: path.clone(),
                                reason: "safetensors header describes more bytes than there can be".to_owned(),
                            },
                        );
                    }
                },
                Err(_) => {},
            }
        }
    }
    match deserialize_shard(shard) {
        Ok(_) => Ok(()),
        Err(reason) => Err(CacheResidencyError::MalformedShard { path: path.clone(), reason }),
    }
}

/// Why a mapped shard's payload does not verify, if it does not.
pub open spec fn payload_mismatch(shard: Seq<u8>, expected: Seq<char>) -> Option<Seq<char>> {
    let header_len = vstd::bytes::spec_u64_from_le_bytes(shard.take(8));
    let start = payload_start(header_len);
    let actual = crate::text::hex_of(crate::digest::sha256_digest(shard.skip(start)));
    if shard.len() < 8 {
        Some("file is too short for a safetensors header"@)
    } else if start > shard.len() {
        Some("safetensors header extends beyond the mapped shard"@)
    } else if actual != expected {
        Some("payload SHA-256 mismatch: expected "@ + expected + ", computed "@ + actual)
    } else {
        None
    }
}

/// Checks the payload digest of a mapped shard.
pub fn verify_mapped_payload(shard: &[u8], expected: &str) -> (outcome: Result<(), String>)
    ensures
        match outcome {
            Ok(_) => payload_mismatch(shard@, expected@) is None,
            Err(reason) => payload_mismatch(shard@, expected@) == Some(reason@),
        },
{
    if shard.len() < 8 {
        return Err("file is too short for a safetensors header".to_owned());
    }
    let length_bytes = vstd::slice::slice_subrange(shard, 0, 8);
    assert(length_bytes@ =~= shard@.take(8));
    let header_len: u64 = vstd::bytes::u64_from_le_bytes(length_bytes);
    let rest: usize = shard.len() - 8;
    if header_len > rest as u64 {
        return Err("safetensors header extends beyond the mapped shard".to_owned());
    }
    let start: usize = 8 + header_len as usize;
    let payload = vstd::slice::slice_subrange(shard, start, shard.len());
    assert(payload@ =~= shard@.skip(start as int));
    let actual = digest_hex(payload);
    if same_text(actual.as_str(), expected) {
        Ok(())
    } else {
        let mut reason = "payload SHA-256 mismatch: expected ".to_owned();
        reason.append(expected);
        reason.append(", computed ");
        reason.append(actual.as_str());
        Err(reason)
    }
}

/// The payload digest of a shard.
pub open spec fn payload_digest(shard: Seq<u8>) -> Seq<char> {
    let header_len = vstd::bytes::spec_u64_from_le_bytes(shard.take(8));
    crate::text::hex_of(crate::digest::sha256_digest(shard.skip(payload_start(header_len))))
}

/// Why the length of a shard's header cannot be read, if it cannot: the file is shorter
/// than that number.
pub open spec fn short_shard_failure(path: Seq<char>, shard: Seq<u8>) -> Option<CacheFailure> {
    if shard.len() < 8 {
        Some(
            CacheFailure::Io(
                "read prompt cache shard header length"@,
                path,
                "failed to fill whole buffer"@,
            ),
        )
    } else {
        None
    }
}

/// Computes the payload digest of a shard. The header has to be in order.
pub fn hash_shard_payload(path: &String, shard: &[u8]) -> (outcome: Result<
    String,
    CacheResidencyError,
>)
    ensures
        ({
            let header_len = vstd::bytes::spec_u64_from_le_bytes(shard@.take(8));
            let start = payload_start(header_len);
            match crate::cache_residency::error::or_else(
                short_shard_failure(path@, shard@),
                header_length_failure(path@, shard@.len() as u64, header_len),
            ) {
                Some(failure) => outcome matches Err(error) && error@ == failure,
                None => match header_contents(shard@.subrange(8, start)) {
                    Some(_) => outcome matches Ok(digest) && digest@ == payload_digest(shard@),
                    None => outcome matches Err(error)
                        && error@ matches CacheFailure::MalformedShard(at, reason) && at == path@,
                },
            }
        }),
{
    if shard.len() < 8 {
        return Err(
            CacheResidencyError::Io {
                action: "read prompt cache shard header length".to_owned(),
                path: path.clone(),
                source: "failed to fill whole buffer".to_owned(),
            },
        );
    }
    let length: u64 = shard.len() as u64;
    let length_bytes = vstd::slice::slice_subrange(shard, 0, 8);
    assert(length_bytes@ =~= shard@.take(8));
    let header_len: u64 = match check_header_length(path, length, length_bytes) {
        Ok(header_len) => header_len,
        Err(error) => {
            return Err(error);
        },
    };
    let start: usize = 8 + header_len as usize;
    let header = vstd::slice::slice_subrange(shard, 8, start);
    match read_header(path, header) {
        Ok(_) => {},
        Err(error) => {
            return Err(error);
        },
    }
    let payload = vstd::slice::slice_subrange(shard, start, shard.len());
    assert(payload@ =~= shard@.skip(start as int));
    Ok(digest_hex(payload))
}

/// Why the payload of a stored block does not verify, if it does not. Blocks without a
/// recorded digest are not checked.
pub open spec fn location_failure(location: DiskLocation, shard: Seq<u8>) -> Option<CacheFailure> {
    match location.payload_sha256 {
        Some(expected) => match payload_mismatch(shard, expected@) {
            Some(reason) => Some(CacheFailure::MalformedShard(location.path@, reason)),
            None => None,
        },
        None => None,
    }
}

/// Checks the payload of a stored block that is mapped into memory against its recorded
/// digest.
pub fn verify_disk_payload(location: &DiskLocation, shard: &[u8]) -> (outcome: Result<
    (),
    CacheResidencyError,
>)
    ensures
        crate::cache_residency::error::failure_of(outcome) == location_failure(*location, shard@),
{
    match &location.payload_sha256 {
        Some(expected) => match verify_mapped_payload(shard, expected.as_str()) {
            Ok(_) => Ok(()),
            Err(reason) => Err(
                CacheResidencyError::MalformedShard { path: location.path.clone(), reason },
            ),
        },
        None => Ok(()),
    }
}

/// A shard whose digest was recorded when it was written verifies as long as its payload
/// is the same, and fails as soon as the digest of the payload differs.
pub proof fn recorded_payloads_verify(written: Seq<u8>, read: Seq<u8>)
    requires
        read.len() >= 8,
        payload_start(vstd::bytes::spec_u64_from_le_bytes(read.take(8))) <= read.len(),
    ensures
        payload_mismatch(read, payload_digest(written)) is None <==> payload_digest(read)
            == payload_digest(written),
{
}

/// One array that was loaded from a shard, with its name.
#[derive(Debug)]
pub struct NamedArray {
    /// Name in the shard.
    pub name: String,
    /// The array.
    pub array: CacheArray,
}

/// Position of the first array with a name.
pub open spec fn array_position(arrays: Seq<NamedArray>, name: Seq<char>) -> Option<int>
    decreases arrays.len(),
{
    if arrays.len() == 0 {
        None
    } else if arrays[0].name@ == name {
        Some(0)
    } else {
        match array_position(arrays.drop_first(), name) {
            Some(position) => Some(position + 1),
            None => None,
        }
    }
}

fn find_array(arrays: &Vec<NamedArray>, name: &str) -> (position: Option<usize>)
    ensures
        match position {
            Some(i) => i < arrays@.len() && array_position(arrays@, name@) == Some(i as int),
            None => array_position(arrays@, name@) is None,
        },
{
    let mut index: usize = 0;
    proof {
        assert(arrays@.skip(0) =~= arrays@);
    }
    while index < arrays.len()
        invariant
            index <= arrays@.len(),
            array_position(arrays@, name@) == (match array_position(
                arrays@.skip(index as int),
                name@,
            ) {
                Some(position) => Some(position + index),
                None => None,
            }),
        decreases arrays@.len() - index,
    {
        let ghost rest = arrays@.skip(index as int);
        assert(rest[0] == arrays@[index as int]);
        assert(rest.drop_first() =~= arrays@.skip(index + 1));
        if same_text(arrays[index].name.as_str(), name) {
            return Some(index);
        }
        index = index + 1;
    }
    None
}

/// Why loaded arrays do not make up a block, if they do not.
pub open spec fn assembly_failure(
    location: DiskLocation,
    arrays: Seq<NamedArray>,
) -> Option<CacheFailure> {
    let first = array_position(arrays, location.first_name@);
    let rest = arrays.remove(first->Some_0);
    let second = array_position(rest, location.second_name@);
    if first is None {
        Some(
            CacheFailure::MalformedShard(
                location.path@,
                "missing array "@ + location.first_name@,
            ),
        )
    } else if second is None {
        Some(
            CacheFailure::MalformedShard(
                location.path@,
                "missing array "@ + location.second_name@,
            ),
        )
    } else if arrays.len() != 2 {
        Some(CacheFailure::MalformedShard(location.path@, "unexpected extra arrays"@))
    } else {
        None
    }
}

/// Makes up a block from the arrays that its shard holds: exactly the two named ones.
pub fn assemble_block_arrays(
    location: &DiskLocation,
    representation: CacheRepresentation,
    arrays: Vec<NamedArray>,
) -> (outcome: Result<CacheBlockArrays, CacheResidencyError>)
    ensures
        crate::cache_residency::error::failure_of(outcome) == assembly_failure(
            *location,
            arrays@,
        ),
        outcome matches Ok(block) ==> {
            let first = array_position(arrays@, location.first_name@)->Some_0;
            let rest = arrays@.remove(first);
            let second = array_position(rest, location.second_name@)->Some_0;
            &&& block.stored() == representation
            &&& block.first_array() == arrays@[first].array
            &&& block.second_array() == rest[second].array
        },
{
    let mut arrays = arrays;
    let first = match find_array(&arrays, location.first_name.as_str()) {
        Some(index) => arrays.remove(index),
        None => {
            let mut reason = "missing array ".to_owned();
            reason.append(location.first_name.as_str());
            return Err(
                CacheResidencyError::MalformedShard { path: location.path.clone(), reason },
            );
        },
    };
    let second = match find_array(&arrays, location.second_name.as_str()) {
        Some(index) => arrays.remove(index),
        None => {
            let mut reason = "missing array ".to_owned();
            reason.append(location.second_name.as_str());
            return Err(
                CacheResidencyError::MalformedShard { path: location.path.clone(), reason },
            );
        },
    };
    if arrays.len() != 0 {
        return Err(
            CacheResidencyError::MalformedShard {
                path: location.path.clone(),
                reason: "unexpected extra arrays".to_owned(),
            },
        );
    }
    match representation {
        CacheRepresentation::KeyValue => Ok(
            CacheBlockArrays::KeyValue { keys: first.array, values: second.array },
        ),
        CacheRepresentation::CompressedLatentRotary => Ok(
            CacheBlockArrays::CompressedLatentRotary {
                latent: first.array,
                rotary_key: second.array,
            },
        ),
    }
}

/// Whether a relative path stays below its directory by its spelling: it is not
/// absolute, does not begin with a `.` segment and has no `..` segment.
pub open spec fn is_plain_relative(path: Seq<char>) -> bool {
    &&& !(path.len() > 0 && path[0] == '/')
    &&& !(path.len() == 1 && path[0] == '.')
    &&& !(path.len() > 1 && path[0] == '.' && path[1] == '/')
    &&& forall|i: int| 0 <= i < path.len() ==> !parent_segment_at(path, i)
}

/// Whether a `..` segment starts at a position.
pub open spec fn parent_segment_at(path: Seq<char>, i: int) -> bool {
    &&& i + 1 < path.len()
    &&& path[i] == '.'
    &&& path[i + 1] == '.'
    &&& i == 0 || path[i - 1] == '/'
    &&& i + 2 == path.len() || path[i + 2] == '/'
}

/// Answers whether a shard path stays below the prompt-cache directory by its spelling.
pub fn is_safe_shard_path(path: &str) -> (safe: bool)
    ensures
        safe == is_plain_relative(path@),
{
    let chars = chars_of(path);
    if chars.len() > 0 && chars[0] == '/' {
        return false;
    }
    if chars.len() > 0 && chars[0] == '.' && (chars.len() == 1 || chars[1] == '/') {
        return false;
    }
    let mut index: usize = 0;
    while index < chars.len()
        invariant
            chars@ == path@,
            index <= chars@.len(),
            forall|i: int| 0 <= i < index ==> !#[trigger] parent_segment_at(chars@, i),
        decreases chars@.len() - index,
    {
        let left = chars.len() - index;
        let parent = left >= 2 && chars[index] == '.' && chars[index + 1] == '.' && (index == 0
            || chars[index - 1] == '/') && (left == 2 || chars[index + 2] == '/');
        assert(parent == parent_segment_at(chars@, index as int));
        if parent {
            return false;
        }
        index = index + 1;
    }
    true
}

/// A relative path below a directory.
pub open spec fn joined_path(directory: Seq<char>, relative: Seq<char>) -> Seq<char> {
    if directory.len() == 0 || directory.last() == '/' {
        directory + relative
    } else {
        directory + seq!['/'] + relative
    }
}

/// Joins a relative path to a directory.
pub fn join_path(directory: &str, relative: &str) -> (path: String)
    ensures
        path@ == joined_path(directory@, relative@),
{
    let length: usize = directory.unicode_len();
    let mut path = directory.to_owned();
    if length > 0 && directory.get_char(length - 1) != '/' {
        proof {
            reveal_strlit("/");
        }
        path.append("/");
        assert("/"@ =~= seq!['/']);
    }
    path.append(relative);
    path
}

/// Resolves a relative shard path below the prompt-cache directory. `escapes` says
/// whether following links in the file system leads out of the directory.
pub fn safe_shard_path(directory: &str, relative: &str, escapes: bool) -> (outcome: Result<
    String,
    CacheResidencyError,
>)
    ensures
        crate::cache_residency::error::failure_of(outcome) == (if !is_plain_relative(relative@)
            || escapes {
            Some(CacheFailure::UnsafeShardPath(relative@))
        } else {
            None
        }),
        outcome matches Ok(path) ==> path@ == joined_path(directory@, relative@),
{
    if !is_safe_shard_path(relative) || escapes {
        return Err(CacheResidencyError::UnsafeShardPath(relative.to_owned()));
    }
    Ok(join_path(directory, relative))
}

/// One rank of a live shard name; an absent rank is `x`.
pub open spec fn rank_text(rank: Option<usize>) -> Seq<char> {
    match rank {
        Some(rank) => crate::text::decimal(rank as nat),
        None => "x"@,
    }
}

/// The rank component of a live shard name.
pub open spec fn ranks_text(rank: Option<CacheRankIdentity>) -> Seq<char> {
    match rank {
        None => "rank-px-tx-ex"@,
        Some(rank) => "rank-p"@ + rank_text(rank.pipeline_rank) + "-t"@ + rank_text(
            rank.tensor_parallel_rank,
        ) + "-e"@ + rank_text(rank.expert_parallel_rank),
    }
}

/// The representation component of a live shard name.
pub open spec fn representation_text(representation: CacheRepresentation) -> Seq<char> {
    match representation {
        CacheRepresentation::KeyValue => "kv"@,
        CacheRepresentation::CompressedLatentRotary => "mla"@,
    }
}

/// Sixteen hexadecimal digits, or more where the value needs more.
pub open spec fn wide_hex(value: u64) -> Seq<char> {
    crate::text::zero_padded(crate::text::numeral(value as nat, 16), 16)
}

/// The name shared by a live shard and its temporary file. It holds the process, the
/// write, the session, the layer, the representation, the ranks and the token range.
pub open spec fn live_shard_name(
    process_namespace: Seq<char>,
    write_id: u64,
    id: CacheBlockId,
) -> Seq<char> {
    "live-"@ + process_namespace + "-w"@ + wide_hex(write_id) + "-s"@ + wide_hex(id.session_id)
        + "-layer-"@ + crate::text::zero_padded(crate::text::decimal(id.global_layer as nat), 5)
        + "-"@ + representation_text(id.representation) + "-"@ + ranks_text(id.rank) + "-"@
        + crate::text::signed_decimal(id.start as int) + "-"@ + crate::text::signed_decimal(
        id.end as int,
    )
}

fn append_rank(name: &mut String, rank: Option<usize>)
    ensures
        final(name)@ == old(name)@ + rank_text(rank),
{
    match rank {
        Some(rank) => {
            name.append(usize_text(rank).as_str());
        },
        None => {
            name.append("x");
        },
    }
}

/// Returns the file names of a live shard: the published one and the temporary one.
pub fn live_block_names(process_namespace: &str, write_id: u64, id: &CacheBlockId) -> (names: (
    String,
    String,
))
    ensures
        names.0@ == live_shard_name(process_namespace@, write_id, *id) + ".safetensors"@,
        names.1@ == "."@ + live_shard_name(process_namespace@, write_id, *id)
            + ".tmp.safetensors"@,
{
    let mut base = "live-".to_owned();
    base.append(process_namespace);
    base.append("-w");
    base.append(padded_text(numeral_text(write_id as u128, 16).as_str(), 16).as_str());
    base.append("-s");
    base.append(padded_text(numeral_text(id.session_id as u128, 16).as_str(), 16).as_str());
    base.append("-layer-");
    base.append(padded_text(usize_text(id.global_layer).as_str(), 5).as_str());
    base.append("-");
    match id.representation {
        CacheRepresentation::KeyValue => base.append("kv"),
        CacheRepresentation::CompressedLatentRotary => base.append("mla"),
    }
    base.append("-");
    match id.rank {
        None => base.append("rank-px-tx-ex"),
        Some(rank) => {
            let ghost before = base@;
            base.append("rank-p");
            append_rank(&mut base, rank.pipeline_rank);
            base.append("-t");
            append_rank(&mut base, rank.tensor_parallel_rank);
            base.append("-e");
            append_rank(&mut base, rank.expert_parallel_rank);
            assert(base@ =~= before + ranks_text(id.rank));
        },
    }
    base.append("-");
    base.append(signed_text(id.start).as_str());
    base.append("-");
    base.append(signed_text(id.end).as_str());
    assert(base@ =~= live_shard_name(process_namespace@, write_id, *id));
    let mut published = base.clone();
    published.append(".safetensors");
    let mut temporary = ".".to_owned();
    temporary.append(base.as_str());
    temporary.append(".tmp.safetensors");
    (published, temporary)
}

/// What tells one process from another: its number and the time of its first write.
pub open spec fn process_text(process: u32, started: u128) -> Seq<char> {
    "p"@ + crate::text::zero_padded(crate::text::numeral(process as nat, 16), 8) + "-t"@
        + crate::text::zero_padded(crate::text::numeral(started as nat, 16), 32)
}

/// Returns the part of live shard names that belongs to this process.
pub fn process_namespace(process: u32, started: u128) -> (namespace: String)
    ensures
        namespace@ == process_text(process, started),
{
    let mut namespace = "p".to_owned();
    namespace.append(padded_text(numeral_text(process as u128, 16).as_str(), 8).as_str());
    namespace.append("-t");
    namespace.append(padded_text(numeral_text(started, 16).as_str(), 32).as_str());
    namespace
}

proof fn wide_hex_length(value: u64)
    ensures
        wide_hex(value).len() == 16,
{
    assert(crate::text::sixteens(16) == 18446744073709551616) by {
        reveal_with_fuel(crate::text::sixteens, 17);
    }
    crate::text::hexadecimal_length(value as nat, 16);
}

/// Whether a text holds a part at a position.
spec fn holds_at(text: Seq<char>, at: int, part: Seq<char>) -> bool {
    &&& 0 <= at <= at + part.len() <= text.len()
    &&& forall|i: int| 0 <= i < part.len() ==> #[trigger] part[i] == text[at + i]
}

proof fn appending_keeps_parts(text: Seq<char>, more: Seq<char>, at: int, part: Seq<char>)
    requires
        holds_at(text, at, part),
    ensures
        holds_at(text + more, at, part),
{
}

proof fn write_is_in_the_name(namespace: Seq<char>, write_id: u64, id: CacheBlockId, suffix: Seq<char>)
    ensures
        holds_at(
            live_shard_name(namespace, write_id, id) + suffix,
            ("live-"@ + namespace + "-w"@).len() as int,
            wide_hex(write_id),
        ),
{
    let before = "live-"@ + namespace + "-w"@;
    let at = before.len() as int;
    let part = wide_hex(write_id);
    let t0 = before + part;
    assert(holds_at(t0, at, part));
    appending_keeps_parts(t0, "-s"@, at, part);
    let t1 = t0 + "-s"@;
    appending_keeps_parts(t1, wide_hex(id.session_id), at, part);
    let t2 = t1 + wide_hex(id.session_id);
    appending_keeps_parts(t2, "-layer-"@, at, part);
    let t3 = t2 + "-layer-"@;
    let layer = crate::text::zero_padded(crate::text::decimal(id.global_layer as nat), 5);
    appending_keeps_parts(t3, layer, at, part);
    let t4 = t3 + layer;
    appending_keeps_parts(t4, "-"@, at, part);
    let t5 = t4 + "-"@;
    appending_keeps_parts(t5, representation_text(id.representation), at, part);
    let t6 = t5 + representation_text(id.representation);
    appending_keeps_parts(t6, "-"@, at, part);
    let t7 = t6 + "-"@;
    appending_keeps_parts(t7, ranks_text(id.rank), at, part);
    let t8 = t7 + ranks_text(id.rank);
    appending_keeps_parts(t8, "-"@, at, part);
    let t9 = t8 + "-"@;
    appending_keeps_parts(t9, crate::text::signed_decimal(id.start as int), at, part);
    let t10 = t9 + crate::text::signed_decimal(id.start as int);
    appending_keeps_parts(t10, "-"@, at, part);
    let t11 = t10 + "-"@;
    appending_keeps_parts(t11, crate::text::signed_decimal(id.end as int), at, part);
    let t12 = t11 + crate::text::signed_decimal(id.end as int);
    appending_keeps_parts(t12, suffix, at, part);
}

proof fn live_names_differ(
    namespace: Seq<char>,
    left: u64,
    left_id: CacheBlockId,
    right: u64,
    right_id: CacheBlockId,
    suffix: Seq<char>,
)
    requires
        left != right,
    ensures
        live_shard_name(namespace, left, left_id) + suffix != live_shard_name(
            namespace,
            right,
            right_id,
        ) + suffix,
{
    write_is_in_the_name(namespace, left, left_id, suffix);
    write_is_in_the_name(namespace, right, right_id, suffix);
    wide_hex_length(left);
    wide_hex_length(right);
    let first = live_shard_name(namespace, left, left_id) + suffix;
    let second = live_shard_name(namespace, right, right_id) + suffix;
    if first == second {
        assert(wide_hex(left) =~= wide_hex(right));
        crate::text::hexadecimals_differ(left as nat, right as nat, 16);
    }
}

/// Two writes of one process never share a file, neither a published one nor a
/// temporary one, whatever blocks they write.
pub proof fn live_writes_never_share_a_file(
    namespace: Seq<char>,
    left: u64,
    left_id: CacheBlockId,
    right: u64,
    right_id: CacheBlockId,
)
    requires
        left != right,
    ensures
        live_shard_name(namespace, left, left_id) + ".safetensors"@ != live_shard_name(
            namespace,
            right,
            right_id,
        ) + ".safetensors"@,
        "."@ + live_shard_name(namespace, left, left_id) + ".tmp.safetensors"@ != "."@
            + live_shard_name(namespace, right, right_id) + ".tmp.safetensors"@,
        live_shard_name(namespace, left, left_id) + ".safetensors"@ != "."@ + live_shard_name(
            namespace,
            right,
            right_id,
        ) + ".tmp.safetensors"@,
{
    live_names_differ(namespace, left, left_id, right, right_id, ".safetensors"@);
    live_names_differ(namespace, left, left_id, right, right_id, ".tmp.safetensors"@);
    let first = "."@ + live_shard_name(namespace, left, left_id) + ".tmp.safetensors"@;
    let second = "."@ + live_shard_name(namespace, right, right_id) + ".tmp.safetensors"@;
    reveal_strlit(".");
    reveal_strlit("live-");
    assert(first.skip(1) =~= live_shard_name(namespace, left, left_id) + ".tmp.safetensors"@);
    assert(second.skip(1) =~= live_shard_name(namespace, right, right_id) + ".tmp.safetensors"@);
    let published = live_shard_name(namespace, left, left_id) + ".safetensors"@;
    assert(published[0] == 'l');
    assert(second[0] == '.');
}

/// A header lies between its length and the payload: it starts behind the eight bytes
/// that give its length and is as long as they say.
pub proof fn headers_follow_their_length(shard: Seq<u8>)
    requires
        holds_header(shard),
    ensures
        header_bytes(shard).len() == vstd::bytes::spec_u64_from_le_bytes(shard.subrange(0, 8)),
        shard == shard.subrange(0, 8) + header_bytes(shard) + shard.skip(
            payload_start(vstd::bytes::spec_u64_from_le_bytes(shard.subrange(0, 8))),
        ),
{
    assert(shard.take(8) =~= shard.subrange(0, 8));
    assert(shard =~= shard.subrange(0, 8) + header_bytes(shard) + shard.skip(
        payload_start(vstd::bytes::spec_u64_from_le_bytes(shard.subrange(0, 8))),
    ));
}

/// Processes are told apart: two namespaces are the same only for one process number and
/// one time of its first write.
pub proof fn processes_are_told_apart(
    left: u32,
    left_started: u128,
    right: u32,
    right_started: u128,
)
    requires
        process_text(left, left_started) == process_text(right, right_started),
    ensures
        left == right,
        left_started == right_started,
{
    reveal_strlit("p");
    reveal_strlit("-t");
    reveal_with_fuel(crate::text::sixteens, 9);
    crate::text::hexadecimal_length(left as nat, 8);
    crate::text::hexadecimal_length(right as nat, 8);
    let a = crate::text::zero_padded(crate::text::numeral(left as nat, 16), 8);
    let b = crate::text::zero_padded(crate::text::numeral(right as nat, 16), 8);
    let c = crate::text::zero_padded(crate::text::numeral(left_started as nat, 16), 32);
    let d = crate::text::zero_padded(crate::text::numeral(right_started as nat, 16), 32);
    let one = process_text(left, left_started);
    let two = process_text(right, right_started);
    assert(a.len() == 8 && b.len() == 8);
    assert(one.subrange(1, 9) =~= a);
    assert(two.subrange(1, 9) =~= b);
    assert(one.skip(11) =~= c);
    assert(two.skip(11) =~= d);
    crate::text::hexadecimals_differ(left as nat, right as nat, 8);
    crate::text::hexadecimals_differ(left_started as nat, right_started as nat, 32);
}

} // verus!
