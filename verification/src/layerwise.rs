//! Vocabulary of layer-by-layer execution: static units, checkpoint keys, and how
//! parameters are derived from what a checkpoint stores.

use vstd::prelude::*;
use vstd::string::StringExecFns;

use crate::array::Dtype;
use crate::text::{padded_text, usize_text};

verus! {

/// A module that stays resident, and where its parameters stand in the checkpoint.
#[derive(Debug, Clone, PartialEq, Eq)]
pub struct StaticUnit {
    /// Name of the unit.
    pub unit: String,
    /// Prefix of its checkpoint keys.
    pub prefix: String,
}

/// The names and prefixes of static units.
pub open spec fn unit_layout(units: Seq<StaticUnit>) -> Seq<(Seq<char>, Seq<char>)> {
    units.map_values(|unit: StaticUnit| (unit.unit@, unit.prefix@))
}

/// Adds a static unit to a list.
pub fn add_unit(units: &mut Vec<StaticUnit>, unit: &str, prefix: &str)
    ensures
        unit_layout(final(units)@) == unit_layout(old(units)@).push((unit@, prefix@)),
{
    let ghost before = units@;
    units.push(StaticUnit { unit: unit.to_owned(), prefix: prefix.to_owned() });
    assert(unit_layout(units@) =~= unit_layout(before).push((unit@, prefix@)));
}

/// A key of the checkpoint, and the name under which parameters are looked up.
#[derive(Debug, Clone, PartialEq, Eq)]
pub struct CheckpointKey {
    /// The key as the checkpoint has it.
    pub raw: String,
    /// The name under which it is looked up.
    pub canonical: String,
}

/// The keys as the checkpoint has them.
pub open spec fn raw_names(keys: Seq<CheckpointKey>) -> Seq<Seq<char>> {
    keys.map_values(|key: CheckpointKey| key.raw@)
}

/// The names under which keys are looked up.
pub open spec fn lookup_names(keys: Seq<CheckpointKey>) -> Seq<Seq<char>> {
    keys.map_values(|key: CheckpointKey| key.canonical@)
}

/// One parameter of a module.
#[derive(Debug, Clone, PartialEq, Eq)]
pub struct ModuleParameter {
    /// Name below the module.
    pub name: String,
    /// Canonical name of the whole parameter.
    pub canonical: String,
    /// Scalar type.
    pub dtype: Dtype,
}

/// How a parameter comes from the checkpoint.
#[derive(Debug, PartialEq, Eq)]
pub enum WeightRecipe {
    /// The whole tensor of a key.
    Source {
        /// The key.
        key: String,
    },
    /// A range of the tensor of a key.
    SelectRange {
        /// The key.
        key: String,
        /// Axis of the range.
        axis: usize,
        /// First index.
        start: usize,
        /// Index behind the last.
        end: usize,
    },
    /// The tensor of a key in another scalar type.
    Cast {
        /// The key.
        key: String,
        /// The scalar type.
        dtype: Dtype,
    },
    /// The tensors of several keys, stacked.
    Stack {
        /// Axis that the stack adds.
        axis: usize,
        /// The keys, in order.
        keys: Vec<String>,
    },
}

/// The mathematical value of a [`WeightRecipe`].
pub enum Recipe {
    Source(Seq<char>),
    SelectRange(Seq<char>, usize, usize, usize),
    Cast(Seq<char>, Dtype),
    Stack(usize, Seq<Seq<char>>),
}

impl View for WeightRecipe {
    type V = Recipe;

    open spec fn view(&self) -> Recipe {
        match *self {
            WeightRecipe::Source { key } => Recipe::Source(key@),
            WeightRecipe::SelectRange { key, axis, start, end } => Recipe::SelectRange(
                key@,
                axis,
                start,
                end,
            ),
            WeightRecipe::Cast { key, dtype } => Recipe::Cast(key@, dtype),
            WeightRecipe::Stack { axis, keys } => Recipe::Stack(axis, crate::error::texts(keys@)),
        }
    }
}

/// The recipe of a parameter.
#[derive(Debug, PartialEq, Eq)]
pub struct NamedRecipe {
    /// Name of the parameter below its module.
    pub name: String,
    /// How it comes from the checkpoint.
    pub recipe: WeightRecipe,
}

/// The names and recipes of a list.
pub open spec fn recipe_list(recipes: Seq<NamedRecipe>) -> Seq<(Seq<char>, Recipe)> {
    recipes.map_values(|named: NamedRecipe| (named.name@, named.recipe@))
}

/// Adds a recipe to a list.
pub fn add_recipe(recipes: &mut Vec<NamedRecipe>, name: String, recipe: WeightRecipe)
    ensures
        recipe_list(final(recipes)@) == recipe_list(old(recipes)@).push((name@, recipe@)),
{
    let ghost before = recipes@;
    recipes.push(NamedRecipe { name, recipe });
    assert(recipe_list(recipes@) =~= recipe_list(before).push((name@, recipe@)));
}

/// The last position at which a name stands.
pub open spec fn last_position(names: Seq<Seq<char>>, wanted: Seq<char>) -> Option<int>
    decreases names.len(),
{
    if names.len() == 0 {
        None
    } else if names.last() == wanted {
        Some(names.len() - 1)
    } else {
        last_position(names.drop_last(), wanted)
    }
}

/// The key that a name leads to: the last one that is looked up under it.
pub open spec fn key_named(keys: Seq<CheckpointKey>, wanted: Seq<char>) -> Option<Seq<char>> {
    match last_position(lookup_names(keys), wanted) {
        Some(at) => Some(keys[at].raw@),
        None => None,
    }
}

/// Answers whether the checkpoint has a key.
pub fn has_key(keys: &Vec<CheckpointKey>, wanted: &str) -> (found: bool)
    ensures
        found == raw_names(keys@).contains(wanted@),
{
    let ghost names = raw_names(keys@);
    let mut index: usize = 0;
    while index < keys.len()
        invariant
            index <= keys@.len(),
            names == raw_names(keys@),
            forall|i: int| 0 <= i < index ==> #[trigger] names[i] != wanted@,
        decreases keys@.len() - index,
    {
        if crate::text::same_text(keys[index].raw.as_str(), wanted) {
            assert(names[index as int] == wanted@);
            return true;
        }
        assert(names[index as int] == keys@[index as int].raw@);
        index = index + 1;
    }
    false
}

/// Finds the key that a name leads to.
pub fn find_key(keys: &Vec<CheckpointKey>, wanted: &str) -> (key: Option<String>)
    ensures
        match key {
            Some(key) => key_named(keys@, wanted@) == Some(key@),
            None => key_named(keys@, wanted@) is None,
        },
{
    let ghost names = lookup_names(keys@);
    let mut index: usize = keys.len();
    assert(names.take(index as int) =~= names);
    while index > 0
        invariant
            index <= keys@.len(),
            names == lookup_names(keys@),
            last_position(names, wanted@) == last_position(names.take(index as int), wanted@),
        decreases index,
    {
        index = index - 1;
        proof {
            assert(names.take(index + 1).drop_last() =~= names.take(index as int));
            assert(names.take(index + 1).last() == keys@[index as int].canonical@);
        }
        if crate::text::same_text(keys[index].canonical.as_str(), wanted) {
            return Some(keys[index].raw.clone());
        }
    }
    None
}

/// The name of a layer's unit: the index has at least five digits.
pub open spec fn numbered_unit(prefix: Seq<char>, index: nat) -> Seq<char> {
    prefix + crate::text::zero_padded(crate::text::decimal(index), 5)
}

/// Returns the name of a layer's unit.
pub fn numbered_unit_name(prefix: &str, index: usize) -> (name: String)
    ensures
        name@ == numbered_unit(prefix@, index as nat),
{
    let mut name = prefix.to_owned();
    name.append(padded_text(usize_text(index).as_str(), 5).as_str());
    name
}

/// Returns the prefix of a layer's checkpoint keys.
pub fn numbered_prefix(prefix: &str, index: usize) -> (name: String)
    ensures
        name@ == prefix@ + crate::text::decimal(index as nat),
{
    let mut name = prefix.to_owned();
    name.append(usize_text(index).as_str());
    name
}

/// Layers of one group have different units.
pub proof fn numbered_units_differ(prefix: Seq<char>, left: nat, right: nat)
    requires
        numbered_unit(prefix, left) == numbered_unit(prefix, right),
    ensures
        left == right,
{
    let mark = prefix.len() as int;
    assert(numbered_unit(prefix, left).skip(mark) =~= crate::text::zero_padded(
        crate::text::decimal(left),
        5,
    ));
    assert(numbered_unit(prefix, right).skip(mark) =~= crate::text::zero_padded(
        crate::text::decimal(right),
        5,
    ));
    crate::text::padded_numerals_differ(left, right, 5);
}

/// A name leads to a key of the checkpoint that is looked up under it, wherever there is
/// one: the last of them.
pub proof fn names_lead_to_their_keys(keys: Seq<CheckpointKey>, wanted: Seq<char>, index: int)
    requires
        0 <= index < keys.len(),
        keys[index].canonical@ == wanted,
        forall|later: int| index < later < keys.len() ==> (#[trigger] keys[later]).canonical@ != wanted,
    ensures
        key_named(keys, wanted) == Some(keys[index].raw@),
{
    the_last_name_is_found(lookup_names(keys), wanted, index);
}

/// A name is found where it stands last.
pub proof fn the_last_name_is_found(names: Seq<Seq<char>>, wanted: Seq<char>, index: int)
    requires
        0 <= index < names.len(),
        names[index] == wanted,
        forall|later: int| index < later < names.len() ==> #[trigger] names[later] != wanted,
    ensures
        last_position(names, wanted) == Some(index),
    decreases names.len(),
{
    if index < names.len() - 1 {
        assert(names[names.len() - 1] != wanted);
        assert forall|later: int| index < later < names.drop_last().len() implies
            #[trigger] names.drop_last()[later] != wanted by {
            assert(names[later] != wanted);
        }
        the_last_name_is_found(names.drop_last(), wanted, index);
    }
}

/// A name that no key is looked up under leads nowhere.
pub proof fn unknown_names_lead_nowhere(keys: Seq<CheckpointKey>, wanted: Seq<char>)
    requires
        forall|i: int| 0 <= i < keys.len() ==> (#[trigger] keys[i]).canonical@ != wanted,
    ensures
        key_named(keys, wanted) is None,
{
    let names = lookup_names(keys);
    assert forall|i: int| 0 <= i < names.len() implies #[trigger] names[i] != wanted by {
        assert(names[i] == keys[i].canonical@);
    }
    no_position(names, wanted);
}

proof fn no_position(names: Seq<Seq<char>>, wanted: Seq<char>)
    requires
        forall|i: int| 0 <= i < names.len() ==> #[trigger] names[i] != wanted,
    ensures
        last_position(names, wanted) is None,
    decreases names.len(),
{
    if names.len() > 0 {
        assert forall|i: int| 0 <= i < names.drop_last().len() implies
            #[trigger] names.drop_last()[i] != wanted by {
            assert(names[i] != wanted);
        }
        no_position(names.drop_last(), wanted);
    }
}

} // verus!
