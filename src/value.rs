use vstd::prelude::*;

verus! {

/// A parsed configuration tree, as the configuration parser hands it over.
///
/// A `Real` is held as the IEEE-754 bit pattern of a double, so that the tree
/// can be inspected without floating-point arithmetic. An `Object` keeps its
/// entries in the order in which they were written; the parser guarantees that
/// its keys are distinct (see `source_well_formed`).
#[derive(Debug)]
pub enum SourceValue {
    Boolean(bool),
    Integer(i64),
    Real(u64),
    String(String),
    Array(Vec<SourceValue>),
    Object(Vec<(String, SourceValue)>),
    Null,
    /// A sub-tree that the parser could not resolve, with the parser's reason.
    BadValue(String),
}

/// The target-agnostic tree: a JSON-like value with ordered objects.
///
/// A `Float` holds the bit pattern of a finite double.
#[derive(Debug)]
pub enum IntermediateValue {
    Bool(bool),
    Int(i64),
    Float(u64),
    String(String),
    Array(Vec<IntermediateValue>),
    Object(Vec<(String, IntermediateValue)>),
    Null,
}

/// The text formats that an intermediate tree can be rendered to.
#[derive(PartialEq, Eq, Structural, Clone, Copy, Debug)]
pub enum Output {
    Json,
    Yaml,
    Toml,
}

/// Mask of the eleven exponent bits of a double.
pub const EXPONENT_MASK: u64 = 0x7ff0_0000_0000_0000;

/// A double is finite exactly when its exponent bits are not all set
/// (all set encodes the infinities and the NaNs).
pub open spec fn is_finite_bits(bits: u64) -> bool {
    bits & EXPONENT_MASK != EXPONENT_MASK
}

/// The keys of an ordered list of entries are pairwise distinct.
pub open spec fn keys_distinct<T>(entries: Seq<(String, T)>) -> bool {
    forall|i: int, j: int|
        0 <= i < j < entries.len() ==> #[trigger] entries[i].0@ != #[trigger] entries[j].0@
}

/// Every object in the source tree has distinct keys.
pub open spec fn source_well_formed(s: SourceValue) -> bool
    decreases s,
{
    match s {
        SourceValue::Array(v) => forall|i: int|
            #![trigger v@[i]]
            0 <= i < v@.len() ==> source_well_formed(v@[i]),
        SourceValue::Object(v) => keys_distinct(v@) && forall|i: int|
            #![trigger v@[i]]
            0 <= i < v@.len() ==> source_well_formed(v@[i].1),
        _ => true,
    }
}

/// Every float in the intermediate tree is finite and every object in it
/// has distinct keys.
pub open spec fn intermediate_well_formed(j: IntermediateValue) -> bool
    decreases j,
{
    match j {
        IntermediateValue::Float(b) => is_finite_bits(b),
        IntermediateValue::Array(v) => forall|i: int|
            #![trigger v@[i]]
            0 <= i < v@.len() ==> intermediate_well_formed(v@[i]),
        IntermediateValue::Object(v) => keys_distinct(v@) && forall|i: int|
            #![trigger v@[i]]
            0 <= i < v@.len() ==> intermediate_well_formed(v@[i].1),
        _ => true,
    }
}

/// The source tree holds no unresolved node and no non-finite real anywhere.
pub open spec fn convertible(s: SourceValue) -> bool
    decreases s,
{
    match s {
        SourceValue::Real(b) => is_finite_bits(b),
        SourceValue::Array(v) => forall|i: int|
            #![trigger v@[i]]
            0 <= i < v@.len() ==> convertible(v@[i]),
        SourceValue::Object(v) => forall|i: int|
            #![trigger v@[i]]
            0 <= i < v@.len() ==> convertible(v@[i].1),
        SourceValue::BadValue(_) => false,
        _ => true,
    }
}

/// `j` is the intermediate tree that `s` maps to: same shape, same scalars,
/// same keys in the same order.
pub open spec fn converts_to(s: SourceValue, j: IntermediateValue) -> bool
    decreases s,
{
    match (s, j) {
        (SourceValue::Boolean(a), IntermediateValue::Bool(b)) => a == b,
        (SourceValue::Integer(a), IntermediateValue::Int(b)) => a == b,
        (SourceValue::Real(a), IntermediateValue::Float(b)) => a == b && is_finite_bits(a),
        (SourceValue::String(a), IntermediateValue::String(b)) => a@ == b@,
        (SourceValue::Array(a), IntermediateValue::Array(b)) => {
            &&& a@.len() == b@.len()
            &&& forall|i: int| #![trigger a@[i]] 0 <= i < a@.len() ==> converts_to(a@[i], b@[i])
        },
        (SourceValue::Object(a), IntermediateValue::Object(b)) => {
            &&& a@.len() == b@.len()
            &&& forall|i: int|
                0 <= i < a@.len() ==> (#[trigger] a@[i]).0@ == b@[i].0@ && converts_to(
                    a@[i].1,
                    b@[i].1,
                )
        },
        (SourceValue::Null, IntermediateValue::Null) => true,
        _ => false,
    }
}

/// The intermediate tree holds a `Null` somewhere.
pub open spec fn has_null(j: IntermediateValue) -> bool
    decreases j,
{
    match j {
        IntermediateValue::Null => true,
        IntermediateValue::Array(v) => exists|i: int|
            #![trigger v@[i]]
            0 <= i < v@.len() && has_null(v@[i]),
        IntermediateValue::Object(v) => exists|i: int|
            #![trigger v@[i]]
            0 <= i < v@.len() && has_null(v@[i].1),
        _ => false,
    }
}

/// TOML has no `null` and no top-level scalar or array: a tree can be written
/// as a TOML document exactly when it is an object without nulls.
pub open spec fn toml_representable(j: IntermediateValue) -> bool {
    j is Object && !has_null(j)
}

} // verus!
