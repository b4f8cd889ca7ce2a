use vstd::prelude::*;

use crate::error::Error;
use crate::value::{
    convertible, converts_to, has_null, is_finite_bits, toml_representable, IntermediateValue,
    Output, SourceValue, EXPONENT_MASK,
};

verus! {

/// `e` is the error of the first defect met in a depth-first, left-to-right
/// walk of `s`: an unresolved node carries the parser's reason, a non-finite
/// real its bit pattern.
pub open spec fn is_first_defect(s: SourceValue, e: Error) -> bool
    decreases s,
{
    match s {
        SourceValue::Real(b) => !is_finite_bits(b) && e == (Error::InvalidFloat { bits: b }),
        SourceValue::BadValue(r) => e is Unresolved && e->reason@ == r@,
        SourceValue::Array(v) => exists|i: int|
            #![trigger v@[i]]
            0 <= i < v@.len() && (forall|k: int| #![trigger v@[k]] 0 <= k < i ==> convertible(v@[k]))
                && is_first_defect(v@[i], e),
        SourceValue::Object(v) => exists|i: int|
            #![trigger v@[i]]
            0 <= i < v@.len() && (forall|k: int|
                #![trigger v@[k]]
                0 <= k < i ==> convertible(v@[k].1)) && is_first_defect(v@[i].1, e),
        _ => false,
    }
}

/// The source tree holds a `Null` somewhere.
pub open spec fn source_has_null(s: SourceValue) -> bool
    decreases s,
{
    match s {
        SourceValue::Null => true,
        SourceValue::Array(v) => exists|i: int|
            #![trigger v@[i]]
            0 <= i < v@.len() && source_has_null(v@[i]),
        SourceValue::Object(v) => exists|i: int|
            #![trigger v@[i]]
            0 <= i < v@.len() && source_has_null(v@[i].1),
        _ => false,
    }
}

/// The source tree, once converted, can be written to `output`.
pub open spec fn fits_output(s: SourceValue, output: Output) -> bool {
    output == Output::Toml ==> (s is Object && !source_has_null(s))
}

/// Mapping keeps the nulls where they are.
pub proof fn lemma_null_kept(s: SourceValue, j: IntermediateValue)
    requires
        converts_to(s, j),
    ensures
        source_has_null(s) == has_null(j),
    decreases s,
{
    match (s, j) {
        (SourceValue::Array(a), IntermediateValue::Array(b)) => {
            assert forall|i: int| 0 <= i < a@.len() implies source_has_null(a@[i]) == has_null(
                b@[i],
            ) by {
                lemma_null_kept(a@[i], b@[i]);
            }
            if source_has_null(s) {
                let i = choose|i: int| 0 <= i < a@.len() && source_has_null(a@[i]);
                assert(has_null(b@[i]));
            }
            if has_null(j) {
                let i = choose|i: int| 0 <= i < b@.len() && has_null(b@[i]);
                assert(source_has_null(a@[i]));
            }
        },
        (SourceValue::Object(a), IntermediateValue::Object(b)) => {
            assert forall|i: int| 0 <= i < a@.len() implies source_has_null(a@[i].1) == has_null(
                b@[i].1,
            ) by {
                assert(converts_to(a@[i].1, b@[i].1));
                lemma_null_kept(a@[i].1, b@[i].1);
            }
            if source_has_null(s) {
                let i = choose|i: int| 0 <= i < a@.len() && source_has_null(a@[i].1);
                assert(has_null(b@[i].1));
            }
            if has_null(j) {
                let i = choose|i: int| 0 <= i < b@.len() && has_null(b@[i].1);
                assert(source_has_null(a@[i].1));
            }
        },
        _ => {},
    }
}

/// The conversion front end: maps parsed configuration trees and checks that
/// the result fits the requested output format.
pub struct Converter;

impl Converter {
    /// Whether a double, given by its bit pattern, is finite.
    pub fn is_finite(bits: u64) -> (r: bool)
        ensures
            r == is_finite_bits(bits),
    {
        bits & EXPONENT_MASK != EXPONENT_MASK
    }

    /// Maps a parsed tree to the intermediate tree, failing on the first
    /// unresolved node or non-finite real.
    pub fn hocon_to_raw_json(hocon: &SourceValue) -> (r: Result<IntermediateValue, Error>)
        ensures
            r is Ok <==> convertible(*hocon),
            r matches Ok(j) ==> converts_to(*hocon, j),
            r matches Err(e) ==> is_first_defect(*hocon, e),
        decreases *hocon,
    {
        match hocon {
            SourceValue::Boolean(b) => Ok(IntermediateValue::Bool(*b)),
            SourceValue::Integer(i) => Ok(IntermediateValue::Int(*i)),
            SourceValue::Real(bits) => {
                if Self::is_finite(*bits) {
                    Ok(IntermediateValue::Float(*bits))
                } else {
                    Err(Error::InvalidFloat { bits: *bits })
                }
            },
            SourceValue::String(s) => Ok(IntermediateValue::String(s.clone())),
            SourceValue::Array(items) => {
                let mut out: Vec<IntermediateValue> = Vec::new();
                let mut i: usize = 0;
                while i < items.len()
                    invariant
                        *hocon == SourceValue::Array(*items),
                        i <= items@.len(),
                        out@.len() == i,
                        forall|k: int| #![trigger items@[k]] 0 <= k < i ==> convertible(items@[k]),
                        forall|k: int| #![trigger items@[k]] 0 <= k < i ==> converts_to(items@[k], out@[k]),
                    decreases items@.len() - i,
                {
                    proof {
                        assert(decreases_to!(*hocon => hocon->Array_0));
                        assert(decreases_to!(hocon->Array_0 => hocon->Array_0@));
                        assert(decreases_to!(hocon->Array_0@ => hocon->Array_0@[i as int]));
                    }
                    match Self::hocon_to_raw_json(&items[i]) {
                        Ok(j) => out.push(j),
                        Err(e) => {
                            assert(!convertible(items@[i as int]));
                            assert(is_first_defect(items@[i as int], e));
                            assert(!convertible(*hocon));
                            return Err(e);
                        },
                    }
                    i += 1;
                }
                let r = IntermediateValue::Array(out);
                assert(converts_to(*hocon, r));
                Ok(r)
            },
            SourceValue::Object(entries) => {
                let mut out: Vec<(String, IntermediateValue)> = Vec::new();
                let mut i: usize = 0;
                while i < entries.len()
                    invariant
                        *hocon == SourceValue::Object(*entries),
                        i <= entries@.len(),
                        out@.len() == i,
                        forall|k: int| #![trigger entries@[k]] 0 <= k < i ==> convertible(entries@[k].1),
                        forall|k: int|
                            0 <= k < i ==> (#[trigger] entries@[k]).0@ == out@[k].0@
                                && converts_to(entries@[k].1, out@[k].1),
                    decreases entries@.len() - i,
                {
                    let entry = &entries[i];
                    proof {
                        assert(decreases_to!(*hocon => hocon->Object_0));
                        assert(decreases_to!(hocon->Object_0 => hocon->Object_0@));
                        assert(decreases_to!(hocon->Object_0@ => hocon->Object_0@[i as int]));
                        assert(decreases_to!(hocon->Object_0@[i as int] => hocon->Object_0@[i as int].1));
                    }
                    match Self::hocon_to_raw_json(&entry.1) {
                        Ok(j) => out.push((entry.0.clone(), j)),
                        Err(e) => {
                            assert(!convertible(entries@[i as int].1));
                            assert(is_first_defect(entries@[i as int].1, e));
                            assert(!convertible(*hocon));
                            return Err(e);
                        },
                    }
                    i += 1;
                }
                let r = IntermediateValue::Object(out);
                assert(converts_to(*hocon, r));
                Ok(r)
            },
            SourceValue::Null => Ok(IntermediateValue::Null),
            SourceValue::BadValue(reason) => Err(Error::Unresolved { reason: reason.clone() }),
        }
    }

    /// Whether the intermediate tree holds a `Null` anywhere.
    pub fn contains_null(value: &IntermediateValue) -> (r: bool)
        ensures
            r == has_null(*value),
        decreases *value,
    {
        match value {
            IntermediateValue::Null => true,
            IntermediateValue::Array(items) => {
                let mut i: usize = 0;
                while i < items.len()
                    invariant
                        *value == IntermediateValue::Array(*items),
                        i <= items@.len(),
                        forall|k: int| #![trigger items@[k]] 0 <= k < i ==> !has_null(items@[k]),
                    decreases items@.len() - i,
                {
                    proof {
                        assert(decreases_to!(*value => value->Array_0));
                        assert(decreases_to!(value->Array_0 => value->Array_0@));
                        assert(decreases_to!(value->Array_0@ => value->Array_0@[i as int]));
                    }
                    if Self::contains_null(&items[i]) {
                        assert(has_null(items@[i as int]));
                        return true;
                    }
                    i += 1;
                }
                false
            },
            IntermediateValue::Object(entries) => {
                let mut i: usize = 0;
                while i < entries.len()
                    invariant
                        *value == IntermediateValue::Object(*entries),
                        i <= entries@.len(),
                        forall|k: int|
                            #![trigger entries@[k]]
                            0 <= k < i ==> !has_null(entries@[k].1),
                    decreases entries@.len() - i,
                {
                    proof {
                        assert(decreases_to!(*value => value->Object_0));
                        assert(decreases_to!(value->Object_0 => value->Object_0@));
                        assert(decreases_to!(value->Object_0@ => value->Object_0@[i as int]));
                        assert(decreases_to!(
                            value->Object_0@[i as int] => value->Object_0@[i as int].1
                        ));
                    }
                    if Self::contains_null(&entries[i].1) {
                        assert(has_null(entries@[i as int].1));
                        return true;
                    }
                    i += 1;
                }
                false
            },
            _ => false,
        }
    }

    /// Checks that an intermediate tree can be written in `output`: JSON and
    /// YAML take every tree, TOML only an object without nulls.
    pub fn check_target(value: &IntermediateValue, output: Output) -> (r: Result<(), Error>)
        ensures
            r is Ok <==> (output == Output::Toml ==> toml_representable(*value)),
            r matches Err(e) ==> e is Unrepresentable,
    {
        match output {
            Output::Toml => {
                if matches!(value, IntermediateValue::Object(_)) && !Self::contains_null(value) {
                    Ok(())
                } else {
                    Err(Error::Unrepresentable)
                }
            },
            _ => Ok(()),
        }
    }

    /// Maps a parsed tree and checks that the result can be written in
    /// `output`: the decisions of a whole conversion, short of encoding.
    pub fn run(hocon: &SourceValue, output: Output) -> (r: Result<IntermediateValue, Error>)
        ensures
            r is Ok <==> convertible(*hocon) && fits_output(*hocon, output),
            r matches Ok(j) ==> converts_to(*hocon, j),
            r matches Err(e) ==> if convertible(*hocon) {
                e is Unrepresentable
            } else {
                is_first_defect(*hocon, e)
            },
    {
        let json = Self::hocon_to_raw_json(hocon)?;
        proof {
            lemma_null_kept(*hocon, json);
        }
        match Self::check_target(&json, output) {
            Ok(()) => Ok(json),
            Err(e) => Err(e),
        }
    }
}

} // verus!
