//! Element types and shapes of runtime arrays.

use vstd::prelude::*;

verus! {

/// Element type of a runtime array.
#[derive(Debug, Clone, Copy, PartialEq, Eq, Structural)]
pub enum Dtype {
    /// Boolean.
    Bool,
    /// Unsigned 8-bit integer.
    Uint8,
    /// Unsigned 16-bit integer.
    Uint16,
    /// Unsigned 32-bit integer.
    Uint32,
    /// Unsigned 64-bit integer.
    Uint64,
    /// Signed 8-bit integer.
    Int8,
    /// Signed 16-bit integer.
    Int16,
    /// Signed 32-bit integer.
    Int32,
    /// Signed 64-bit integer.
    Int64,
    /// 16-bit floating point.
    Float16,
    /// 32-bit floating point.
    Float32,
    /// 64-bit floating point.
    Float64,
    /// 16-bit brain floating point.
    Bfloat16,
    /// Complex number of two 32-bit floating-point parts.
    Complex64,
}

/// Name of an element type.
pub open spec fn dtype_name(dtype: Dtype) -> Seq<char> {
    match dtype {
        Dtype::Bool => "Bool"@,
        Dtype::Uint8 => "Uint8"@,
        Dtype::Uint16 => "Uint16"@,
        Dtype::Uint32 => "Uint32"@,
        Dtype::Uint64 => "Uint64"@,
        Dtype::Int8 => "Int8"@,
        Dtype::Int16 => "Int16"@,
        Dtype::Int32 => "Int32"@,
        Dtype::Int64 => "Int64"@,
        Dtype::Float16 => "Float16"@,
        Dtype::Float32 => "Float32"@,
        Dtype::Float64 => "Float64"@,
        Dtype::Bfloat16 => "Bfloat16"@,
        Dtype::Complex64 => "Complex64"@,
    }
}

impl Dtype {
    /// Returns the name of the element type.
    pub fn name(self) -> (name: &'static str)
        ensures
            name@ == dtype_name(self),
    {
        match self {
            Dtype::Bool => "Bool",
            Dtype::Uint8 => "Uint8",
            Dtype::Uint16 => "Uint16",
            Dtype::Uint32 => "Uint32",
            Dtype::Uint64 => "Uint64",
            Dtype::Int8 => "Int8",
            Dtype::Int16 => "Int16",
            Dtype::Int32 => "Int32",
            Dtype::Int64 => "Int64",
            Dtype::Float16 => "Float16",
            Dtype::Float32 => "Float32",
            Dtype::Float64 => "Float64",
            Dtype::Bfloat16 => "Bfloat16",
            Dtype::Complex64 => "Complex64",
        }
    }

    /// Whether the element type is a real floating-point type.
    pub open spec fn floating(self) -> bool {
        self == Dtype::Float16 || self == Dtype::Float32 || self == Dtype::Float64 || self
            == Dtype::Bfloat16
    }

    /// Answers whether the element type is a real floating-point type.
    pub fn is_float(self) -> (float: bool)
        ensures
            float == self.floating(),
    {
        match self {
            Dtype::Float16 | Dtype::Float32 | Dtype::Float64 | Dtype::Bfloat16 => true,
            _ => false,
        }
    }

    /// Whether the element type can hold route ids.
    pub open spec fn routable(self) -> bool {
        self == Dtype::Int32 || self == Dtype::Uint32 || self == Dtype::Int64 || self
            == Dtype::Uint64
    }

    /// Answers whether the element type can hold route ids.
    pub fn is_routable(self) -> (routable: bool)
        ensures
            routable == self.routable(),
    {
        match self {
            Dtype::Int32 | Dtype::Uint32 | Dtype::Int64 | Dtype::Uint64 => true,
            _ => false,
        }
    }
}

/// Number of elements of a shape.
pub open spec fn elements(shape: Seq<i32>) -> int
    decreases shape.len(),
{
    if shape.len() == 0 {
        1
    } else {
        elements(shape.drop_last()) * shape.last()
    }
}

/// Whether multiplying the dimensions of a shape one after another never exceeds a limit.
pub open spec fn elements_fit(shape: Seq<i32>, limit: int) -> bool
    decreases shape.len(),
{
    if shape.len() == 0 {
        true
    } else {
        elements_fit(shape.drop_last(), limit) && elements(shape) <= limit
    }
}

/// What fits for a shape fits for its leading dimensions.
pub proof fn elements_fit_before(shape: Seq<i32>, limit: int, length: int)
    requires
        0 <= length <= shape.len(),
        elements_fit(shape, limit),
    ensures
        elements_fit(shape.take(length), limit),
    decreases shape.len(),
{
    if length == shape.len() {
        assert(shape.take(length) =~= shape);
    } else {
        elements_fit_before(shape.drop_last(), limit, length);
        assert(shape.drop_last().take(length) =~= shape.take(length));
    }
}

/// Elements multiply: no dimensions make one element, a dimension makes as many as it
/// says, and two lists of dimensions make together the product of what each makes.
pub proof fn elements_multiply(left: Seq<i32>, right: Seq<i32>, dimension: i32)
    ensures
        elements(Seq::empty()) == 1,
        elements(seq![dimension]) == dimension,
        elements(left + right) == elements(left) * elements(right),
    decreases right.len(),
{
    reveal_with_fuel(elements, 2);
    assert(seq![dimension].drop_last() =~= Seq::<i32>::empty());
    if right.len() == 0 {
        assert(left + right =~= left);
    } else {
        elements_multiply(left, right.drop_last(), dimension);
        assert((left + right).drop_last() =~= left + right.drop_last());
        let a = elements(left);
        let b = elements(right.drop_last());
        let c = right.last() as int;
        assert(a * b * c == a * (b * c)) by (nonlinear_arith);
    }
}

/// No element type holds both route ids and real numbers.
pub proof fn ids_are_not_real_numbers(dtype: Dtype)
    ensures
        !(dtype.routable() && dtype.floating()),
        dtype.routable() <==> dtype is Int32 || dtype is Uint32 || dtype is Int64 || dtype is Uint64,
        dtype.floating() <==> dtype is Float16 || dtype is Float32 || dtype is Float64
            || dtype is Bfloat16,
{
}

} // verus!
