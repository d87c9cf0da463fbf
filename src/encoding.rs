use vstd::prelude::*;
use crate::descriptor::{display, lemma_tys_of, tys_of, Descriptor, Ty};
use crate::primitive::Primitive;

verus! {

/// A representation of Objective-C type encodings. Two encodings of any
/// representations compare by one producing its `Descriptor` and the other
/// matching itself against it.
pub trait Encoding {
    /// The type this encoding denotes.
    spec fn ty(&self) -> Ty;

    /// This encoding in the common exchange format.
    fn descriptor(&self) -> (d: Descriptor)
        ensures
            d.ty() == self.ty(),
    ;

    /// Whether `d` denotes the type of this encoding.
    fn matches_descriptor(&self, d: &Descriptor) -> (r: bool)
        ensures
            r == (self.ty() == d.ty()),
    ;

    /// The text of this encoding, as the runtime writes it.
    fn to_string(&self) -> (r: String)
        ensures
            r@ == display(self.ty()),
    ;
}

/// Equivalence between encodings of any two representations.
pub trait EqEncoding: Encoding {
    /// Whether `other`, of any representation, denotes the same type.
    fn eq_encoding<T: Encoding>(&self, other: &T) -> (r: bool)
        ensures
            r == (self.ty() == other.ty()),
    ;
}

impl<E: Encoding> EqEncoding for E {
    fn eq_encoding<T: Encoding>(&self, other: &T) -> (r: bool) {
        other.matches_descriptor(&self.descriptor())
    }
}

/// An encoding that denotes a pointer.
pub trait PointerEncoding: Encoding {
    /// The encoding pointed to.
    fn pointee(&self) -> (r: &Descriptor)
        ensures
            self.ty() == Ty::Pointer(Box::new(r.ty())),
    ;
}

/// An encoding that denotes a struct.
pub trait StructEncoding: Encoding {
    /// The struct's name.
    fn name(&self) -> (r: &str)
        ensures
            self.ty() is Struct,
            r@ == self.ty()->Struct_0,
    ;

    /// Whether this struct has the given name and, position by position, the
    /// given fields.
    fn eq_struct(&self, name: &str, fields: &Vec<Descriptor>) -> (r: bool)
        ensures
            r == (self.ty() == Ty::Struct(name@, tys_of(fields@))),
    ;
}

/// A fixed sequence of field encodings, such as a tuple of encodings.
pub trait Encodings {
    /// The types of the fields, in order.
    spec fn tys(&self) -> Seq<Ty>;

    /// The fields in the common exchange format, in order.
    fn descriptors(&self) -> (r: Vec<Descriptor>)
        ensures
            tys_of(r@) == self.tys(),
    ;
}

impl Encoding for Primitive {
    open spec fn ty(&self) -> Ty {
        Ty::Primitive(*self)
    }

    fn descriptor(&self) -> (d: Descriptor) {
        Descriptor::Primitive(*self)
    }

    fn matches_descriptor(&self, d: &Descriptor) -> (r: bool) {
        match d {
            Descriptor::Primitive(p) => *self == *p,
            _ => false,
        }
    }

    fn to_string(&self) -> (r: String) {
        String::from_str(self.code())
    }
}

impl Encodings for Vec<Descriptor> {
    open spec fn tys(&self) -> Seq<Ty> {
        tys_of(self@)
    }

    fn descriptors(&self) -> (r: Vec<Descriptor>) {
        let mut out: Vec<Descriptor> = Vec::new();
        let mut i: usize = 0;
        while i < self.len()
            invariant
                i <= self.len(),
                tys_of(out@) == tys_of(self@.subrange(0, i as int)),
            decreases self.len() - i,
        {
            let d = self[i].copy();
            let ghost prev = out@;
            out.push(d);
            assert(out@.subrange(0, out@.len() - 1) =~= prev);
            assert(self@.subrange(0, i + 1).subrange(0, i as int) =~= self@.subrange(0, i as int));
            i = i + 1;
        }
        assert(self@.subrange(0, self.len() as int) =~= self@);
        out
    }
}

impl<A: Encoding> Encodings for (A,) {
    open spec fn tys(&self) -> Seq<Ty> {
        seq![self.0.ty()]
    }

    fn descriptors(&self) -> (r: Vec<Descriptor>) {
        let r = vec![self.0.descriptor()];
        proof {
            lemma_tys_of(r@);
        }
        assert(tys_of(r@) =~= self.tys());
        r
    }
}

impl<A: Encoding, B: Encoding> Encodings for (A, B) {
    open spec fn tys(&self) -> Seq<Ty> {
        seq![self.0.ty(), self.1.ty()]
    }

    fn descriptors(&self) -> (r: Vec<Descriptor>) {
        let r = vec![self.0.descriptor(), self.1.descriptor()];
        proof {
            lemma_tys_of(r@);
        }
        assert(tys_of(r@) =~= self.tys());
        r
    }
}

impl<A: Encoding, B: Encoding, C: Encoding> Encodings for (A, B, C) {
    open spec fn tys(&self) -> Seq<Ty> {
        seq![self.0.ty(), self.1.ty(), self.2.ty()]
    }

    fn descriptors(&self) -> (r: Vec<Descriptor>) {
        let r = vec![self.0.descriptor(), self.1.descriptor(), self.2.descriptor()];
        proof {
            lemma_tys_of(r@);
        }
        assert(tys_of(r@) =~= self.tys());
        r
    }
}

} // verus!
