//! Chat preparation and native tool-runtime contracts.
//!
//! Chat templates remain checkpoint-owned programs. Format profiles are selected only from
//! registered signatures of the selected template body; model architecture metadata is
//! deliberately not a fallback.

use vstd::prelude::*;
use vstd::string::{StrSliceExecFns, StringExecFns};

use crate::digest::digest_bytes;
use crate::rows::copy_rows;
use crate::text::debug_text;

verus! {

/// Controls whether the model may emit a native tool call.
#[derive(Debug, Clone, Copy, PartialEq, Eq, Structural)]
pub enum ToolChoice {
    /// Native tool calls are forbidden.
    Forbidden,
    /// The model may answer normally or call a tool.
    Auto,
    /// The model must call a tool.
    Required,
}

impl Default for ToolChoice {
    fn default() -> (choice: Self)
        ensures
            choice == ToolChoice::Auto,
    {
        ToolChoice::Auto
    }
}

/// A limit on tool calls: at least one.
#[derive(Debug, Clone, Copy, PartialEq, Eq, Structural)]
pub struct CallLimit {
    calls: usize,
}

impl CallLimit {
    #[verifier::type_invariant]
    spec fn positive(self) -> bool {
        self.calls > 0
    }

    /// The number of calls.
    pub closed spec fn limit(self) -> usize {
        self.calls
    }

    /// A limit of so many calls, unless that is none.
    pub fn new(calls: usize) -> (limit: Option<Self>)
        ensures
            limit is Some <==> calls > 0,
            limit matches Some(limit) ==> limit.limit() == calls,
    {
        if calls > 0 {
            Some(CallLimit { calls })
        } else {
            None
        }
    }

    /// Returns the number of calls.
    pub fn get(&self) -> (calls: usize)
        ensures
            calls == self.limit(),
            calls > 0,
    {
        proof {
            use_type_invariant(self);
        }
        self.calls
    }
}

/// Controls whether one assistant turn may contain parallel native tool calls.
#[derive(Debug, Clone, Copy, PartialEq, Eq, Structural)]
pub enum ParallelToolCallPolicy {
    /// At most one tool call may be emitted in an assistant turn.
    Disabled,
    /// Parallel calls are allowed, optionally up to a caller-supplied limit.
    Enabled {
        /// Maximum calls in one assistant turn, or `None` for no caller-supplied limit.
        max_calls: Option<CallLimit>,
    },
}

impl Default for ParallelToolCallPolicy {
    fn default() -> (policy: Self)
        ensures
            policy == ParallelToolCallPolicy::Disabled,
    {
        ParallelToolCallPolicy::Disabled
    }
}

/// An opaque generation constraint owned by a native tool runtime plan.
///
/// The representation is intentionally private so future constraint engines
/// can evolve without exposing a dialect-specific implementation as public API.
#[derive(Debug, Clone, Copy, PartialEq, Eq)]
pub struct GenerationConstraint {
    _private: (),
}

/// An opaque, format-profile-specific plan for native tool generation.
///
/// Plans can be inspected only by this crate's generation runtime. Callers
/// should treat a value as a capability token carried by
/// [`NativeToolSupport::Supported`].
#[derive(Debug, Clone, Copy, PartialEq, Eq)]
pub struct ToolRuntimePlan {
    generation_constraint: GenerationConstraint,
}

/// Whether the selected checkpoint template has registered native tool support.
#[derive(Debug, Clone, PartialEq, Eq)]
pub enum NativeToolSupport {
    /// The selected format profile produced a native tool runtime plan.
    Supported(ToolRuntimePlan),
    /// No safe native tool runtime plan could be selected.
    Unsupported {
        /// Human-readable explanation suitable for diagnostics.
        reason: String,
    },
}

/// A rendered chat prompt together with generation and parsing metadata. `I` identifies
/// the selected checkpoint template.
#[derive(Debug, Clone, PartialEq, Eq)]
pub struct PreparedChat<I> {
    /// The rendered prompt, honoring the request's generation-prompt toggle.
    pub rendered_prompt: String,
    /// The suffix contributed when `add_generation_prompt` is enabled.
    ///
    /// This is empty when the template adds no suffix or when its two render
    /// modes cannot be represented as a simple appended contribution.
    pub generation_prompt: String,
    /// Stable identity of the selected checkpoint chat template.
    pub template_identity: I,
    /// Registered format-profile identity, when one exact profile matched.
    pub format_profile_identity: Option<String>,
    /// Native tool capability for the selected template and profile.
    pub native_tool_support: NativeToolSupport,
    /// Checkpoint EOS token IDs used to stop generation.
    pub eos_token_ids: Vec<u32>,
    /// Profile-owned structural token IDs that decoding must preserve.
    pub preserved_structural_token_ids: Vec<u32>,
    /// Profile-owned text sequences that stop generation.
    pub profile_stop_sequences: Vec<String>,
}

impl<I> PreparedChat<I> {
    /// Returns the rendered prompt.
    pub fn rendered_prompt(&self) -> (prompt: &str)
        ensures
            prompt@ == self.rendered_prompt@,
    {
        self.rendered_prompt.as_str()
    }

    /// Returns the separately computed generation-prompt contribution.
    pub fn generation_prompt(&self) -> (prompt: &str)
        ensures
            prompt@ == self.generation_prompt@,
    {
        self.generation_prompt.as_str()
    }

    /// Returns the selected checkpoint template identity.
    pub fn template_identity(&self) -> (identity: &I)
        ensures
            *identity == self.template_identity,
    {
        &self.template_identity
    }

    /// Returns the registered format-profile identity, if one matched.
    pub fn format_profile_identity(&self) -> (identity: Option<&str>)
        ensures
            match identity {
                Some(identity) => self.format_profile_identity matches Some(own) && own@
                    == identity@,
                None => self.format_profile_identity is None,
            },
    {
        match &self.format_profile_identity {
            Some(identity) => Some(identity.as_str()),
            None => None,
        }
    }

    /// Returns native tool capability for the selected template.
    pub fn native_tool_support(&self) -> (support: &NativeToolSupport)
        ensures
            *support == self.native_tool_support,
    {
        &self.native_tool_support
    }

    /// Returns checkpoint EOS token IDs.
    pub fn eos_token_ids(&self) -> (ids: &[u32])
        ensures
            ids@ == self.eos_token_ids@,
    {
        self.eos_token_ids.as_slice()
    }

    /// Returns structural token IDs that must survive decoding.
    pub fn preserved_structural_token_ids(&self) -> (ids: &[u32])
        ensures
            ids@ == self.preserved_structural_token_ids@,
    {
        self.preserved_structural_token_ids.as_slice()
    }

    /// Returns format-profile stop sequences.
    pub fn profile_stop_sequences(&self) -> (sequences: &[String])
        ensures
            sequences@ == self.profile_stop_sequences@,
    {
        self.profile_stop_sequences.as_slice()
    }
}

/// What a format profile contributes to a prepared chat.
#[derive(Debug)]
pub struct PreparedFormatProfile {
    /// Identity of the profile, where exactly one matched.
    pub identity: Option<String>,
    /// Native tool capability.
    pub native_tool_support: NativeToolSupport,
    /// Structural token IDs that decoding must preserve.
    pub preserved_structural_token_ids: Vec<u32>,
    /// Text sequences that stop generation.
    pub stop_sequences: Vec<String>,
}

/// A registered dialect of chat templates.
#[derive(Debug)]
pub struct FormatProfile {
    /// Identity of the profile.
    pub identity: String,
    /// Digests of the template bodies that it fits.
    pub template_signatures: Vec<Vec<u8>>,
    /// Structural token IDs that decoding must preserve.
    pub preserved_structural_token_ids: Vec<u32>,
    /// Text sequences that stop generation.
    pub stop_sequences: Vec<String>,
    /// Plan for native tool generation, if the dialect has one.
    pub tool_runtime_plan: Option<ToolRuntimePlan>,
}

/// The signature of a template body.
pub open spec fn signature_of(template: Seq<char>) -> Seq<u8> {
    crate::digest::sha256_digest(vstd::utf8::encode_utf8(template))
}

/// Whether a profile is registered for a signature.
pub open spec fn registered(profile: FormatProfile, signature: Seq<u8>) -> bool {
    exists|i: int|
        0 <= i < profile.template_signatures@.len() && (#[trigger] profile.template_signatures@[i])@
            == signature
}

/// Positions of the profiles that are registered for a signature, in order.
pub open spec fn matching(profiles: Seq<FormatProfile>, signature: Seq<u8>) -> Seq<int>
    decreases profiles.len(),
{
    if profiles.len() == 0 {
        Seq::empty()
    } else if registered(profiles.last(), signature) {
        matching(profiles.drop_last(), signature).push(profiles.len() - 1)
    } else {
        matching(profiles.drop_last(), signature)
    }
}

/// Returns the signature of a template body.
pub fn template_signature(template: &str) -> (signature: Vec<u8>)
    ensures
        signature@ == signature_of(template@),
        signature@.len() == 32,
{
    let bytes = template.as_bytes_vec();
    digest_bytes(bytes.as_slice())
}

fn same_bytes(left: &Vec<u8>, right: &Vec<u8>) -> (same: bool)
    ensures
        same == (left@ == right@),
{
    if left.len() != right.len() {
        return false;
    }
    let mut index: usize = 0;
    while index < left.len()
        invariant
            index <= left@.len() == right@.len(),
            forall|i: int| 0 <= i < index ==> left@[i] == right@[i],
        decreases left@.len() - index,
    {
        if left[index] != right[index] {
            return false;
        }
        index = index + 1;
    }
    assert(left@ =~= right@);
    true
}

fn is_registered(profile: &FormatProfile, signature: &Vec<u8>) -> (found: bool)
    ensures
        found == registered(*profile, signature@),
{
    let mut index: usize = 0;
    while index < profile.template_signatures.len()
        invariant
            index <= profile.template_signatures@.len(),
            forall|i: int|
                0 <= i < index ==> (#[trigger] profile.template_signatures@[i])@ != signature@,
        decreases profile.template_signatures@.len() - index,
    {
        if same_bytes(&profile.template_signatures[index], signature) {
            return true;
        }
        index = index + 1;
    }
    false
}

proof fn matches_are_positions(profiles: Seq<FormatProfile>, signature: Seq<u8>)
    ensures
        forall|i: int|
            0 <= i < matching(profiles, signature).len() ==> {
                let at = #[trigger] matching(profiles, signature)[i];
                0 <= at < profiles.len() && registered(profiles[at], signature)
            },
        matching(profiles, signature).len() == 0 ==> forall|i: int|
            0 <= i < profiles.len() ==> !registered(#[trigger] profiles[i], signature),
    decreases profiles.len(),
{
    if profiles.len() > 0 {
        matches_are_positions(profiles.drop_last(), signature);
        let before = matching(profiles.drop_last(), signature);
        let all = matching(profiles, signature);
        assert forall|i: int| 0 <= i < all.len() implies {
            let at = #[trigger] all[i];
            0 <= at < profiles.len() && registered(profiles[at], signature)
        } by {
            if i < before.len() {
                assert(all[i] == before[i]);
                assert(profiles.drop_last()[all[i]] == profiles[all[i]]);
            }
        }
        if all.len() == 0 {
            assert forall|i: int| 0 <= i < profiles.len() implies !registered(
                #[trigger] profiles[i],
                signature,
            ) by {
                if i < profiles.len() - 1 {
                    assert(profiles.drop_last()[i] == profiles[i]);
                }
            }
        }
    }
}

/// Lists the positions of the profiles that are registered for a template.
pub fn matching_profiles(template: &str, profiles: &Vec<FormatProfile>) -> (positions: Vec<usize>)
    ensures
        positions@.map_values(|at: usize| at as int) == matching(
            profiles@,
            signature_of(template@),
        ),
{
    let signature = template_signature(template);
    let mut positions: Vec<usize> = Vec::new();
    let mut index: usize = 0;
    assert(positions@.map_values(|at: usize| at as int) =~= Seq::<int>::empty());
    assert(profiles@.take(0).len() == 0);
    while index < profiles.len()
        invariant
            index <= profiles@.len(),
            signature@ == signature_of(template@),
            positions@.map_values(|at: usize| at as int) == matching(
                profiles@.take(index as int),
                signature@,
            ),
        decreases profiles@.len() - index,
    {
        let ghost before = positions@;
        proof {
            assert(profiles@.take(index + 1).drop_last() =~= profiles@.take(index as int));
        }
        if is_registered(&profiles[index], &signature) {
            positions.push(index);
            assert(positions@.map_values(|at: usize| at as int) =~= before.map_values(
                |at: usize| at as int,
            ).push(index as int));
        }
        index = index + 1;
    }
    assert(profiles@.take(index as int) =~= profiles@);
    positions
}

/// Whether a template got nothing from any profile, for this reason.
pub open spec fn unprepared(prepared: PreparedFormatProfile, reason: Seq<char>) -> bool {
    &&& prepared.identity is None
    &&& prepared.native_tool_support matches NativeToolSupport::Unsupported { reason: own }
        && own@ == reason
    &&& prepared.preserved_structural_token_ids@.len() == 0
    &&& prepared.stop_sequences@.len() == 0
}

/// Whether a template got what one profile contributes.
pub open spec fn prepared_by(prepared: PreparedFormatProfile, profile: FormatProfile) -> bool {
    &&& prepared.identity matches Some(identity) && identity@ == profile.identity@
    &&& match profile.tool_runtime_plan {
        Some(plan) => prepared.native_tool_support == NativeToolSupport::Supported(plan),
        None => prepared.native_tool_support matches NativeToolSupport::Unsupported { reason }
            && reason@ == "format profile "@ + crate::text::debug_quoted(profile.identity@)
            + " does not provide a native tool runtime plan"@,
    }
    &&& prepared.preserved_structural_token_ids@ == profile.preserved_structural_token_ids@
    &&& crate::error::texts(prepared.stop_sequences@) == crate::error::texts(
        profile.stop_sequences@,
    )
}

fn unsupported(reason: &str) -> (prepared: PreparedFormatProfile)
    ensures
        unprepared(prepared, reason@),
{
    PreparedFormatProfile {
        identity: None,
        native_tool_support: NativeToolSupport::Unsupported { reason: reason.to_owned() },
        preserved_structural_token_ids: Vec::new(),
        stop_sequences: Vec::new(),
    }
}

fn copy_texts(list: &Vec<String>) -> (copy: Vec<String>)
    ensures
        crate::error::texts(copy@) == crate::error::texts(list@),
{
    let mut copy: Vec<String> = Vec::new();
    let mut index: usize = 0;
    while index < list.len()
        invariant
            index <= list@.len(),
            copy@.len() == index,
            forall|i: int| 0 <= i < index ==> (#[trigger] copy@[i])@ == list@[i]@,
        decreases list@.len() - index,
    {
        copy.push(list[index].clone());
        index = index + 1;
    }
    assert(crate::error::texts(copy@) =~= crate::error::texts(list@));
    copy
}

/// Prepares what the only profile registered for a template contributes. No profile, or
/// more than one, contributes nothing.
pub fn prepare_format_profile_with_registry(template: &str, profiles: &Vec<FormatProfile>) -> (prepared:
    PreparedFormatProfile)
    ensures
        ({
            let positions = matching(profiles@, signature_of(template@));
            &&& positions.len() == 0 ==> unprepared(
                prepared,
                "no registered format profile matches the selected chat template"@,
            )
            &&& positions.len() == 1 ==> prepared_by(prepared, profiles@[positions[0]])
            &&& positions.len() > 1 ==> unprepared(
                prepared,
                "multiple registered format profiles match the selected chat template"@,
            )
        }),
{
    let positions = matching_profiles(template, profiles);
    proof {
        matches_are_positions(profiles@, signature_of(template@));
    }
    if positions.len() == 0 {
        return unsupported("no registered format profile matches the selected chat template");
    }
    if positions.len() > 1 {
        return unsupported("multiple registered format profiles match the selected chat template");
    }
    let at: usize = positions[0];
    assert(matching(profiles@, signature_of(template@))[0] == at);
    let profile = &profiles[at];
    let native_tool_support = match &profile.tool_runtime_plan {
        Some(plan) => NativeToolSupport::Supported(*plan),
        None => {
            let mut reason = "format profile ".to_owned();
            reason.append(debug_text(profile.identity.as_str()).as_str());
            reason.append(" does not provide a native tool runtime plan");
            NativeToolSupport::Unsupported { reason }
        },
    };
    let preserved_structural_token_ids = copy_rows(
        &profile.preserved_structural_token_ids,
        0,
        profile.preserved_structural_token_ids.len(),
    );
    assert(preserved_structural_token_ids@ =~= profile.preserved_structural_token_ids@);
    PreparedFormatProfile {
        identity: Some(profile.identity.clone()),
        native_tool_support,
        preserved_structural_token_ids,
        stop_sequences: copy_texts(&profile.stop_sequences),
    }
}

/// Prepares the format profile of a template. No production dialect is registered:
/// profiles are added only alongside audited, exact template signatures.
pub fn prepare_format_profile(template: &str) -> (prepared: PreparedFormatProfile)
    ensures
        unprepared(
            prepared,
            "no registered format profile matches the selected chat template"@,
        ),
{
    let profiles: Vec<FormatProfile> = Vec::new();
    prepare_format_profile_with_registry(template, &profiles)
}

/// Profiles registered for one template are ambiguous: registering a second one takes
/// away what the first contributed.
pub proof fn ambiguous_profiles_are_not_guessed(
    profiles: Seq<FormatProfile>,
    signature: Seq<u8>,
    second: FormatProfile,
)
    requires
        matching(profiles, signature).len() == 1,
        registered(second, signature),
    ensures
        matching(profiles.push(second), signature).len() == 2,
{
    assert(profiles.push(second).drop_last() =~= profiles);
}

/// A profile matches a template exactly where one of its signatures is the digest of the
/// template's UTF-8 bytes, and matching profiles are listed in their order.
pub proof fn matching_profiles_know_the_template(
    profiles: Seq<FormatProfile>,
    template: Seq<char>,
    position: int,
)
    ensures
        matching(profiles, signature_of(template)).contains(position) <==> {
            &&& 0 <= position < profiles.len()
            &&& exists|i: int|
                0 <= i < profiles[position].template_signatures@.len() && (
                #[trigger] profiles[position].template_signatures@[i])@
                    == crate::digest::sha256_digest(vstd::utf8::encode_utf8(template))
        },
        forall|i: int, j: int|
            0 <= i < j < matching(profiles, signature_of(template)).len() ==> matching(
                profiles,
                signature_of(template),
            )[i] < matching(profiles, signature_of(template))[j],
{
    matches_are_listed(profiles, signature_of(template), position);
}

proof fn matches_are_listed(profiles: Seq<FormatProfile>, signature: Seq<u8>, position: int)
    ensures
        matching(profiles, signature).contains(position) <==> 0 <= position < profiles.len()
            && registered(profiles[position], signature),
        forall|i: int|
            0 <= i < matching(profiles, signature).len() ==> (#[trigger] matching(
                profiles,
                signature,
            )[i]) < profiles.len(),
        forall|i: int, j: int|
            0 <= i < j < matching(profiles, signature).len() ==> (#[trigger] matching(
                profiles,
                signature,
            )[i]) < (#[trigger] matching(profiles, signature)[j]),
    decreases profiles.len(),
{
    if profiles.len() > 0 {
        let rest = profiles.drop_last();
        matches_are_listed(rest, signature, position);
        let before = matching(rest, signature);
        let all = matching(profiles, signature);
        if before.contains(position) {
            let i = choose|i: int| 0 <= i < before.len() && before[i] == position;
            assert(all[i] == position);
        }
        if all.contains(position) {
            let i = choose|i: int| 0 <= i < all.len() && all[i] == position;
            if i < before.len() {
                assert(before[i] == position);
            }
        }
        if position == profiles.len() - 1 && registered(profiles.last(), signature) {
            assert(all[all.len() - 1] == position);
        }
        assert forall|i: int, j: int| 0 <= i < j < all.len() implies (#[trigger] all[i]) < (
        #[trigger] all[j]) by {
            assert(all[i] == before[i]);
            if j < before.len() {
                assert(all[j] == before[j]);
            }
        }
        assert forall|i: int| 0 <= i < all.len() implies (#[trigger] all[i]) < profiles.len() by {
            if i < before.len() {
                assert(all[i] == before[i]);
            }
        }
    }
}

/// A template that one profile prepares gets that profile's identity, its tool plan or
/// none, its structural tokens and its stop sequences, one for one; a template without a
/// profile gets nothing.
pub proof fn prepared_templates_get_what_the_profile_has(
    prepared: PreparedFormatProfile,
    profile: FormatProfile,
    i: int,
    reason: Seq<char>,
)
    ensures
        prepared_by(prepared, profile) ==> {
            &&& prepared.identity is Some
            &&& prepared.identity->Some_0@ == profile.identity@
            &&& prepared.native_tool_support is Supported <==> profile.tool_runtime_plan is Some
            &&& profile.tool_runtime_plan is Some ==> prepared.native_tool_support->Supported_0
                == profile.tool_runtime_plan->Some_0
            &&& prepared.preserved_structural_token_ids@ == profile.preserved_structural_token_ids@
            &&& prepared.stop_sequences@.len() == profile.stop_sequences@.len()
            &&& 0 <= i < profile.stop_sequences@.len() ==> prepared.stop_sequences@[i]@
                == profile.stop_sequences@[i]@
        },
        unprepared(prepared, reason) ==> {
            &&& prepared.identity is None
            &&& prepared.native_tool_support is Unsupported
            &&& prepared.preserved_structural_token_ids@.len() == 0
            &&& prepared.stop_sequences@.len() == 0
        },
{
    if prepared_by(prepared, profile) {
        let left = crate::error::texts(prepared.stop_sequences@);
        let right = crate::error::texts(profile.stop_sequences@);
        assert(left.len() == right.len());
        if 0 <= i < profile.stop_sequences@.len() {
            assert(left[i] == right[i]);
        }
    }
}

} // verus!
