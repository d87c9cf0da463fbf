//! Objective-C type encodings: a model of the runtime's type strings, with
//! an equivalence check between encodings built from native type
//! descriptions and encodings parsed from strings.

pub mod descriptor;
pub mod encoding;
pub mod laws;
pub mod mutable_data;
pub mod parse;
pub mod pointer;
pub mod primitive;
pub mod structure;

pub use descriptor::Descriptor;
pub use encoding::{Encoding, Encodings, EqEncoding, PointerEncoding, StructEncoding};
pub use mutable_data::NSMutableData;
pub use parse::{ParseEncodingError, StrEncoding};
pub use pointer::Pointer;
pub use primitive::Primitive;
pub use structure::Struct;
