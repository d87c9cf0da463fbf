use vstd::prelude::*;
use crate::encoding::Encoding;
use crate::primitive::{code_of, Primitive};

verus! {

broadcast use {vstd::seq::axiom_seq_subrange_decreases, vstd::std_specs::vec::axiom_vec_index_decreases};

/// The mathematical meaning of an encoding: the type it denotes.
pub enum Ty {
    Primitive(Primitive),
    Pointer(Box<Ty>),
    Struct(Seq<char>, Seq<Ty>),
}

/// The text that the runtime writes for a type.
pub open spec fn display(t: Ty) -> Seq<char>
    decreases t,
{
    match t {
        Ty::Primitive(p) => code_of(p),
        Ty::Pointer(b) => seq!['^'] + display(*b),
        Ty::Struct(name, fields) => seq!['{'] + name + seq!['='] + display_all(fields) + seq!['}'],
    }
}

/// The texts of a sequence of types, one after the other.
pub open spec fn display_all(ts: Seq<Ty>) -> Seq<char>
    decreases ts,
{
    if ts.len() == 0 {
        Seq::empty()
    } else {
        display_all(ts.subrange(0, ts.len() - 1)) + display(ts[ts.len() - 1])
    }
}

/// An encoding in the common exchange format: exactly one of a primitive, a
/// pointer to another encoding, or a named struct with its fields in order.
#[derive(Debug)]
pub enum Descriptor {
    Primitive(Primitive),
    Pointer(Box<Descriptor>),
    Struct(String, Vec<Descriptor>),
}

/// The types that a sequence of descriptors denotes, in order.
pub open spec fn tys_of(ds: Seq<Descriptor>) -> Seq<Ty>
    decreases ds,
{
    if ds.len() == 0 {
        Seq::empty()
    } else {
        tys_of(ds.subrange(0, ds.len() - 1)).push(ds[ds.len() - 1].ty())
    }
}

impl Descriptor {
    /// The type this descriptor denotes.
    pub open spec fn ty(self) -> Ty
        decreases self,
    {
        match self {
            Descriptor::Primitive(p) => Ty::Primitive(p),
            Descriptor::Pointer(b) => Ty::Pointer(Box::new((*b).ty())),
            Descriptor::Struct(name, fields) => Ty::Struct(name@, tys_of(fields@)),
        }
    }
}

/// `tys_of` keeps the length and maps each position.
pub proof fn lemma_tys_of(ds: Seq<Descriptor>)
    ensures
        tys_of(ds).len() == ds.len(),
        forall|i: int| 0 <= i < ds.len() ==> #[trigger] tys_of(ds)[i] == ds[i].ty(),
    decreases ds.len(),
{
    if ds.len() > 0 {
        lemma_tys_of(ds.subrange(0, ds.len() - 1));
    }
}

impl Descriptor {
    /// Structural equivalence: the same primitive, pointers to equivalent
    /// pointees, or structs of the same name whose fields are equivalent
    /// position by position, with as many fields on each side.
    pub fn eq_descriptor(&self, other: &Descriptor) -> (r: bool)
        ensures
            r == (self.ty() == other.ty()),
        decreases self,
    {
        match self {
            Descriptor::Primitive(a) => match other {
                Descriptor::Primitive(b) => *a == *b,
                _ => false,
            },
            Descriptor::Pointer(a) => match other {
                Descriptor::Pointer(b) => a.eq_descriptor(b),
                _ => false,
            },
            Descriptor::Struct(n1, f1) => match other {
                Descriptor::Struct(n2, f2) => {
                    if !n1.eq(n2) {
                        return false;
                    }
                    proof {
                        assert(decreases_to!(*self => *f1));
                    }
                    eq_fields(f1, f2)
                },
                _ => false,
            },
        }
    }

    /// Whether `other`, of any representation, denotes the same type as this
    /// descriptor.
    pub fn eq_encoding<T: Encoding>(&self, other: &T) -> (r: bool)
        ensures
            r == (self.ty() == other.ty()),
    {
        other.matches_descriptor(self)
    }

    /// Appends the text of this encoding to `out`.
    pub fn write_display(&self, out: &mut String)
        ensures
            final(out)@ == old(out)@ + display(self.ty()),
        decreases self,
    {
        match self {
            Descriptor::Primitive(p) => {
                out.append(p.code());
            },
            Descriptor::Pointer(b) => {
                proof {
                    reveal_strlit("^");
                }
                out.append("^");
                b.write_display(out);
                assert(final(out)@ =~= old(out)@ + display(self.ty()));
            },
            Descriptor::Struct(name, fields) => {
                proof {
                    reveal_strlit("{");
                    reveal_strlit("=");
                    reveal_strlit("}");
                    lemma_tys_of(fields@);
                }
                out.append("{");
                out.append(name.as_str());
                out.append("=");
                let ghost start = out@;
                let mut i: usize = 0;
                while i < fields.len()
                    invariant
                        i <= fields.len(),
                        *self is Struct && self->Struct_1 == *fields,
                        tys_of(fields@).len() == fields.len(),
                        forall|j: int| 0 <= j < fields.len() ==> #[trigger] tys_of(fields@)[j] == fields@[j].ty(),
                        out@ == start + display_all(tys_of(fields@).subrange(0, i as int)),
                    decreases fields.len() - i,
                {
                    proof {
                        assert(decreases_to!(*self => *fields));
                        assert(decreases_to!(*fields => fields[i as int]));
                        assert(decreases_to!(*self => fields[i as int]));
                        let ts = tys_of(fields@);
                        assert(ts.subrange(0, i + 1).subrange(0, i as int) =~= ts.subrange(0, i as int));
                    }
                    fields[i].write_display(out);
                    i = i + 1;
                }
                out.append("}");
                assert(tys_of(fields@).subrange(0, fields.len() as int) =~= tys_of(fields@));
                assert(final(out)@ =~= old(out)@ + display(self.ty()));
            },
        }
    }

    /// The text of this encoding, as the runtime writes it.
    pub fn to_string(&self) -> (r: String)
        ensures
            r@ == display(self.ty()),
    {
        let mut out = String::new();
        self.write_display(&mut out);
        assert(out@ =~= display(self.ty()));
        out
    }

    /// A copy of this descriptor.
    pub fn copy(&self) -> (r: Descriptor)
        ensures
            r.ty() == self.ty(),
        decreases self,
    {
        match self {
            Descriptor::Primitive(p) => Descriptor::Primitive(*p),
            Descriptor::Pointer(b) => Descriptor::Pointer(Box::new(b.copy())),
            Descriptor::Struct(name, fields) => {
                let mut out: Vec<Descriptor> = Vec::new();
                let mut i: usize = 0;
                proof {
                    lemma_tys_of(fields@);
                }
                while i < fields.len()
                    invariant
                        i <= fields.len(),
                        *self is Struct && self->Struct_1 == *fields,
                        tys_of(fields@).len() == fields.len(),
                        forall|j: int| 0 <= j < fields.len() ==> #[trigger] tys_of(fields@)[j] == fields@[j].ty(),
                        tys_of(out@) == tys_of(fields@).subrange(0, i as int),
                    decreases fields.len() - i,
                {
                    proof {
                        assert(decreases_to!(*self => *fields));
                        assert(decreases_to!(*fields => fields[i as int]));
                        assert(decreases_to!(*self => fields[i as int]));
                    }
                    let d = fields[i].copy();
                    let ghost prev = out@;
                    out.push(d);
                    assert(out@.subrange(0, out@.len() - 1) =~= prev);
                    assert(tys_of(out@) =~= tys_of(fields@).subrange(0, i + 1));
                    i = i + 1;
                }
                assert(tys_of(fields@).subrange(0, fields.len() as int) =~= tys_of(fields@));
                Descriptor::Struct(name.clone(), out)
            },
        }
    }
}

/// Compares two field sequences in lock-step, left to right, and stops at the
/// first position whose fields are not equivalent. Sequences of different
/// lengths are never equal.
pub fn eq_fields(f1: &Vec<Descriptor>, f2: &Vec<Descriptor>) -> (r: bool)
    ensures
        r == (tys_of(f1@) == tys_of(f2@)),
    decreases f1,
{
    proof {
        lemma_tys_of(f1@);
        lemma_tys_of(f2@);
    }
    if f1.len() != f2.len() {
        return false;
    }
    let mut i: usize = 0;
    while i < f1.len()
        invariant
            i <= f1.len() == f2.len(),
            tys_of(f1@).len() == f1.len(),
            tys_of(f2@).len() == f2.len(),
            forall|j: int| 0 <= j < f1.len() ==> #[trigger] tys_of(f1@)[j] == f1@[j].ty(),
            forall|j: int| 0 <= j < f2.len() ==> #[trigger] tys_of(f2@)[j] == f2@[j].ty(),
            forall|j: int| 0 <= j < i ==> f1@[j].ty() == f2@[j].ty(),
        decreases f1.len() - i,
    {
        proof {
            assert(decreases_to!(*f1 => f1[i as int]));
        }
        if !f1[i].eq_descriptor(&f2[i]) {
            assert(tys_of(f1@)[i as int] != tys_of(f2@)[i as int]);
            return false;
        }
        i = i + 1;
    }
    assert(tys_of(f1@) =~= tys_of(f2@));
    true
}

} // verus!
