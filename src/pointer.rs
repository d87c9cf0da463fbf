use vstd::prelude::*;
use crate::descriptor::{display, Descriptor, Ty};
use crate::encoding::{Encoding, PointerEncoding};

verus! {

/// A static encoding of a pointer to another encoding.
#[derive(Debug)]
pub struct Pointer {
    pointee: Box<Descriptor>,
}

impl Pointer {
    /// The pointer to `pointee`.
    pub fn new<T: Encoding>(pointee: T) -> (r: Pointer)
        ensures
            r.ty() == Ty::Pointer(Box::new(pointee.ty())),
    {
        Pointer { pointee: Box::new(pointee.descriptor()) }
    }
}

impl Encoding for Pointer {
    closed spec fn ty(&self) -> Ty {
        Ty::Pointer(Box::new(self.pointee.ty()))
    }

    fn descriptor(&self) -> (d: Descriptor) {
        Descriptor::Pointer(Box::new(self.pointee.copy()))
    }

    fn matches_descriptor(&self, d: &Descriptor) -> (r: bool) {
        match d {
            Descriptor::Pointer(b) => self.pointee.eq_descriptor(b),
            _ => false,
        }
    }

    fn to_string(&self) -> (r: String) {
        let mut out = String::new();
        proof {
            reveal_strlit("^");
        }
        out.append("^");
        self.pointee.write_display(&mut out);
        assert(out@ =~= display(self.ty()));
        out
    }
}

impl PointerEncoding for Pointer {
    fn pointee(&self) -> (r: &Descriptor) {
        &self.pointee
    }
}

} // verus!
