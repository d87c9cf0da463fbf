use vstd::prelude::*;
use crate::descriptor::{display, Ty};
use crate::encoding::Encoding;
use crate::parse::parse;
use crate::primitive::{code_of, Primitive};

verus! {

/// Whether two encodings, of any representations, denote the same type: what
/// `eq_encoding` decides.
pub open spec fn equivalent<A: Encoding, B: Encoding>(a: &A, b: &B) -> bool {
    a.ty() == b.ty()
}

/// The text of each primitive is its code, and that code reads back as the
/// same primitive.
pub proof fn lemma_primitive_display(p: Primitive)
    ensures
        display(Ty::Primitive(p)) == code_of(p),
        parse(code_of(p)) == Some(Ty::Primitive(p)),
{
}

/// The text of a pointer is `^` followed by the text of its pointee.
pub proof fn lemma_pointer_display(t: Ty)
    ensures
        display(Ty::Pointer(Box::new(t))) == seq!['^'] + display(t),
{
}

/// Every encoding is equivalent to itself.
pub proof fn lemma_equivalent_reflexive<A: Encoding>(a: &A)
    ensures
        equivalent(a, a),
{
}

/// Equivalence does not depend on the order of its two sides, whatever
/// their representations.
pub proof fn lemma_equivalent_symmetric<A: Encoding, B: Encoding>(a: &A, b: &B)
    ensures
        equivalent(a, b) == equivalent(b, a),
{
}

/// Equivalence is transitive across representations.
pub proof fn lemma_equivalent_transitive<A: Encoding, B: Encoding, C: Encoding>(
    a: &A,
    b: &B,
    c: &C,
)
    requires
        equivalent(a, b),
        equivalent(b, c),
    ensures
        equivalent(a, c),
{
}

/// A primitive is never equivalent to a pointer or a struct, of any
/// representation.
pub proof fn lemma_primitive_not_composite<E: Encoding>(p: Primitive, e: &E)
    requires
        e.ty() is Pointer || e.ty() is Struct,
    ensures
        !equivalent(&p, e),
{
}

/// Two structs of one name with different numbers of fields differ.
pub proof fn lemma_field_count_mismatch(name: Seq<char>, f1: Seq<Ty>, f2: Seq<Ty>)
    requires
        f1.len() != f2.len(),
    ensures
        Ty::Struct(name, f1) != Ty::Struct(name, f2),
{
}

/// Two structs of one name whose fields are the same ones in another order
/// differ: field order is part of the type.
pub proof fn lemma_field_order_matters(name: Seq<char>, f1: Seq<Ty>, f2: Seq<Ty>)
    requires
        f1.to_multiset() == f2.to_multiset(),
        f1 != f2,
    ensures
        Ty::Struct(name, f1) != Ty::Struct(name, f2),
{
}

} // verus!
