//! Properties of the conversion that hold for every tree.
use vstd::prelude::*;

use crate::converter::{fits_output, is_first_defect};
use crate::error::Error;
use crate::value::{
    convertible, converts_to, intermediate_well_formed, is_finite_bits, source_well_formed,
    toml_representable, IntermediateValue, Output, SourceValue,
};

verus! {

/// The tree holds an unresolved node somewhere.
pub open spec fn has_bad_value(s: SourceValue) -> bool
    decreases s,
{
    match s {
        SourceValue::BadValue(_) => true,
        SourceValue::Array(v) => exists|i: int|
            #![trigger v@[i]]
            0 <= i < v@.len() && has_bad_value(v@[i]),
        SourceValue::Object(v) => exists|i: int|
            #![trigger v@[i]]
            0 <= i < v@.len() && has_bad_value(v@[i].1),
        _ => false,
    }
}

/// The tree holds a NaN or an infinity somewhere.
pub open spec fn has_non_finite(s: SourceValue) -> bool
    decreases s,
{
    match s {
        SourceValue::Real(b) => !is_finite_bits(b),
        SourceValue::Array(v) => exists|i: int|
            #![trigger v@[i]]
            0 <= i < v@.len() && has_non_finite(v@[i]),
        SourceValue::Object(v) => exists|i: int|
            #![trigger v@[i]]
            0 <= i < v@.len() && has_non_finite(v@[i].1),
        _ => false,
    }
}

/// The tree holds a non-finite real with exactly this bit pattern.
pub open spec fn holds_non_finite(s: SourceValue, bits: u64) -> bool
    decreases s,
{
    match s {
        SourceValue::Real(b) => b == bits && !is_finite_bits(b),
        SourceValue::Array(v) => exists|i: int|
            #![trigger v@[i]]
            0 <= i < v@.len() && holds_non_finite(v@[i], bits),
        SourceValue::Object(v) => exists|i: int|
            #![trigger v@[i]]
            0 <= i < v@.len() && holds_non_finite(v@[i].1, bits),
        _ => false,
    }
}

/// The keys of an ordered list of entries, in order.
pub open spec fn keys_of<T>(entries: Seq<(String, T)>) -> Seq<Seq<char>> {
    entries.map_values(|e: (String, T)| e.0@)
}

/// A tree converts exactly when it holds no unresolved node and no
/// non-finite real; the tree it converts to mirrors it node for node
/// (`converts_to`).
pub proof fn law_convertible_iff_clean(s: SourceValue)
    ensures
        convertible(s) <==> (!has_bad_value(s) && !has_non_finite(s)),
    decreases s,
{
    match s {
        SourceValue::Array(v) => {
            assert forall|i: int| 0 <= i < v@.len() implies (convertible(v@[i]) <==> (
            !has_bad_value(v@[i]) && !has_non_finite(v@[i]))) by {
                law_convertible_iff_clean(v@[i]);
            }
        },
        SourceValue::Object(v) => {
            assert forall|i: int| 0 <= i < v@.len() implies (convertible(v@[i].1) <==> (
            !has_bad_value(v@[i].1) && !has_non_finite(v@[i].1))) by {
                law_convertible_iff_clean(v@[i].1);
            }
        },
        _ => {},
    }
}

/// An unresolved node anywhere in a tree makes its conversion fail.
pub proof fn law_bad_value_fails(s: SourceValue)
    requires
        has_bad_value(s),
    ensures
        !convertible(s),
{
    law_convertible_iff_clean(s);
}

/// The first defect of a tree is an unresolved node of the tree, or a
/// non-finite real of the tree reported with its bit pattern.
proof fn lemma_first_defect_found(s: SourceValue, e: Error)
    requires
        is_first_defect(s, e),
    ensures
        e is InvalidFloat || e is Unresolved,
        e is InvalidFloat ==> holds_non_finite(s, e->bits),
        !has_bad_value(s) ==> e is InvalidFloat,
    decreases s,
{
    match s {
        SourceValue::Array(v) => {
            let i = choose|i: int|
                #![trigger v@[i]]
                0 <= i < v@.len() && (forall|k: int|
                    #![trigger v@[k]]
                    0 <= k < i ==> convertible(v@[k])) && is_first_defect(v@[i], e);
            lemma_first_defect_found(v@[i], e);
        },
        SourceValue::Object(v) => {
            let i = choose|i: int|
                #![trigger v@[i]]
                0 <= i < v@.len() && (forall|k: int|
                    #![trigger v@[k]]
                    0 <= k < i ==> convertible(v@[k].1)) && is_first_defect(v@[i].1, e);
            lemma_first_defect_found(v@[i].1, e);
        },
        _ => {},
    }
}

/// A tree that holds a non-finite real fails to convert. The error it fails
/// with is an invalid-float error naming one of its non-finite reals, unless
/// an unresolved node comes first in the walk; where the tree holds no
/// unresolved node, it always is.
pub proof fn law_non_finite_fails(s: SourceValue, e: Error)
    requires
        has_non_finite(s),
        is_first_defect(s, e),
    ensures
        !convertible(s),
        e is InvalidFloat ==> holds_non_finite(s, e->bits),
        e is InvalidFloat || e is Unresolved,
        !has_bad_value(s) ==> e is InvalidFloat,
{
    law_convertible_iff_clean(s);
    lemma_first_defect_found(s, e);
}

/// An object converts to an object with the same keys in the same order.
pub proof fn law_key_order_kept(s: SourceValue, j: IntermediateValue)
    requires
        s is Object,
        converts_to(s, j),
    ensures
        j is Object,
        keys_of(j->Object_0@) == keys_of(s->Object_0@),
{
    let a = s->Object_0@;
    let b = j->Object_0@;
    assert forall|i: int| 0 <= i < a.len() implies keys_of(b)[i] == keys_of(a)[i] by {
        assert(a[i].0@ == b[i].0@);
    }
    assert(keys_of(j->Object_0@) =~= keys_of(s->Object_0@));
}

/// Distinct keys stay distinct: a well-formed tree converts to a
/// well-formed tree.
pub proof fn law_well_formed_kept(s: SourceValue, j: IntermediateValue)
    requires
        source_well_formed(s),
        converts_to(s, j),
    ensures
        intermediate_well_formed(j),
    decreases s,
{
    match (s, j) {
        (SourceValue::Array(a), IntermediateValue::Array(b)) => {
            assert forall|i: int| 0 <= i < b@.len() implies intermediate_well_formed(b@[i]) by {
                assert(converts_to(a@[i], b@[i]));
                law_well_formed_kept(a@[i], b@[i]);
            }
        },
        (SourceValue::Object(a), IntermediateValue::Object(b)) => {
            assert forall|i: int| 0 <= i < b@.len() implies intermediate_well_formed(b@[i].1) by {
                assert(converts_to(a@[i].1, b@[i].1));
                law_well_formed_kept(a@[i].1, b@[i].1);
            }
            assert forall|x: int, y: int| 0 <= x < y < b@.len() implies b@[x].0@ != b@[y].0@ by {
                assert(a@[x].0@ == b@[x].0@);
                assert(a@[y].0@ == b@[y].0@);
            }
        },
        _ => {},
    }
}

/// The empty object converts to the empty object, which every output
/// format can express.
pub proof fn law_empty_object(s: SourceValue, j: IntermediateValue, output: Output)
    requires
        s is Object,
        s->Object_0@.len() == 0,
        converts_to(s, j),
    ensures
        convertible(s),
        fits_output(s, output),
        j is Object,
        j->Object_0@.len() == 0,
        toml_representable(j),
{
}

/// A finite real converts to a float with the very same bit pattern.
pub proof fn law_real_bits_kept(s: SourceValue, j: IntermediateValue)
    requires
        s is Real,
        is_finite_bits(s->Real_0),
        converts_to(s, j),
    ensures
        j == IntermediateValue::Float(s->Real_0),
        convertible(s),
{
}

} // verus!
