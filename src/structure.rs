use vstd::prelude::*;
use crate::descriptor::{eq_fields, tys_of, Descriptor, Ty};
use crate::encoding::{Encoding, Encodings, StructEncoding};

verus! {

/// A static encoding of a named struct with a fixed sequence of fields.
#[derive(Debug)]
pub struct Struct {
    name: String,
    fields: Vec<Descriptor>,
}

impl Struct {
    /// The struct named `name` whose fields are, in order, `fields`.
    pub fn new<F: Encodings>(name: &str, fields: F) -> (r: Struct)
        ensures
            r.ty() == Ty::Struct(name@, fields.tys()),
    {
        Struct { name: String::from_str(name), fields: fields.descriptors() }
    }
}

impl Encoding for Struct {
    closed spec fn ty(&self) -> Ty {
        Ty::Struct(self.name@, tys_of(self.fields@))
    }

    fn descriptor(&self) -> (d: Descriptor) {
        Descriptor::Struct(self.name.clone(), self.fields.descriptors())
    }

    fn matches_descriptor(&self, d: &Descriptor) -> (r: bool) {
        match d {
            Descriptor::Struct(name, fields) => self.eq_struct(name.as_str(), fields),
            _ => false,
        }
    }

    fn to_string(&self) -> (r: String) {
        self.descriptor().to_string()
    }
}

impl StructEncoding for Struct {
    fn name(&self) -> (r: &str) {
        self.name.as_str()
    }

    fn eq_struct(&self, name: &str, fields: &Vec<Descriptor>) -> (r: bool) {
        if !self.name.eq(&String::from_str(name)) {
            return false;
        }
        eq_fields(&self.fields, fields)
    }
}

} // verus!
