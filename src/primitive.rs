use vstd::prelude::*;

verus! {

/// A scalar Objective-C type, one per code of the runtime's encoding table.
#[derive(Clone, Copy, Debug, PartialEq, Eq, Structural)]
pub enum Primitive {
    Char,
    Short,
    Int,
    Long,
    LongLong,
    UChar,
    UShort,
    UInt,
    ULong,
    ULongLong,
    Float,
    Double,
    Bool,
    Void,
    String,
    Object,
    Block,
    Class,
    Sel,
    Unknown,
}

/// The code of a primitive in the runtime's encoding table.
pub open spec fn code_of(p: Primitive) -> Seq<char> {
    match p {
        Primitive::Char => seq!['c'],
        Primitive::Short => seq!['s'],
        Primitive::Int => seq!['i'],
        Primitive::Long => seq!['l'],
        Primitive::LongLong => seq!['q'],
        Primitive::UChar => seq!['C'],
        Primitive::UShort => seq!['S'],
        Primitive::UInt => seq!['I'],
        Primitive::ULong => seq!['L'],
        Primitive::ULongLong => seq!['Q'],
        Primitive::Float => seq!['f'],
        Primitive::Double => seq!['d'],
        Primitive::Bool => seq!['B'],
        Primitive::Void => seq!['v'],
        Primitive::String => seq!['*'],
        Primitive::Object => seq!['@'],
        Primitive::Block => seq!['@', '?'],
        Primitive::Class => seq!['#'],
        Primitive::Sel => seq![':'],
        Primitive::Unknown => seq!['?'],
    }
}

/// The primitive whose code is the single character `c`, if there is one.
/// (`@?` is the one code of two characters; its first character alone is the
/// code of `Object`.)
pub open spec fn primitive_of_char(c: char) -> Option<Primitive> {
    if c == 'c' {
        Some(Primitive::Char)
    } else if c == 's' {
        Some(Primitive::Short)
    } else if c == 'i' {
        Some(Primitive::Int)
    } else if c == 'l' {
        Some(Primitive::Long)
    } else if c == 'q' {
        Some(Primitive::LongLong)
    } else if c == 'C' {
        Some(Primitive::UChar)
    } else if c == 'S' {
        Some(Primitive::UShort)
    } else if c == 'I' {
        Some(Primitive::UInt)
    } else if c == 'L' {
        Some(Primitive::ULong)
    } else if c == 'Q' {
        Some(Primitive::ULongLong)
    } else if c == 'f' {
        Some(Primitive::Float)
    } else if c == 'd' {
        Some(Primitive::Double)
    } else if c == 'B' {
        Some(Primitive::Bool)
    } else if c == 'v' {
        Some(Primitive::Void)
    } else if c == '*' {
        Some(Primitive::String)
    } else if c == '@' {
        Some(Primitive::Object)
    } else if c == '#' {
        Some(Primitive::Class)
    } else if c == ':' {
        Some(Primitive::Sel)
    } else if c == '?' {
        Some(Primitive::Unknown)
    } else {
        None
    }
}

impl Primitive {
    /// The code of this primitive, as the runtime writes it.
    pub fn code(self) -> (r: &'static str)
        ensures
            r@ == code_of(self),
    {
        proof {
            reveal_strlit("c");
            reveal_strlit("s");
            reveal_strlit("i");
            reveal_strlit("l");
            reveal_strlit("q");
            reveal_strlit("C");
            reveal_strlit("S");
            reveal_strlit("I");
            reveal_strlit("L");
            reveal_strlit("Q");
            reveal_strlit("f");
            reveal_strlit("d");
            reveal_strlit("B");
            reveal_strlit("v");
            reveal_strlit("*");
            reveal_strlit("@");
            reveal_strlit("@?");
            reveal_strlit("#");
            reveal_strlit(":");
            reveal_strlit("?");
        }
        match self {
            Primitive::Char => "c",
            Primitive::Short => "s",
            Primitive::Int => "i",
            Primitive::Long => "l",
            Primitive::LongLong => "q",
            Primitive::UChar => "C",
            Primitive::UShort => "S",
            Primitive::UInt => "I",
            Primitive::ULong => "L",
            Primitive::ULongLong => "Q",
            Primitive::Float => "f",
            Primitive::Double => "d",
            Primitive::Bool => "B",
            Primitive::Void => "v",
            Primitive::String => "*",
            Primitive::Object => "@",
            Primitive::Block => "@?",
            Primitive::Class => "#",
            Primitive::Sel => ":",
            Primitive::Unknown => "?",
        }
    }

    /// The primitive whose code is the single character `c`, if any.
    pub fn from_char(c: char) -> (r: Option<Primitive>)
        ensures
            r == primitive_of_char(c),
    {
        match c {
            'c' => Some(Primitive::Char),
            's' => Some(Primitive::Short),
            'i' => Some(Primitive::Int),
            'l' => Some(Primitive::Long),
            'q' => Some(Primitive::LongLong),
            'C' => Some(Primitive::UChar),
            'S' => Some(Primitive::UShort),
            'I' => Some(Primitive::UInt),
            'L' => Some(Primitive::ULong),
            'Q' => Some(Primitive::ULongLong),
            'f' => Some(Primitive::Float),
            'd' => Some(Primitive::Double),
            'B' => Some(Primitive::Bool),
            'v' => Some(Primitive::Void),
            '*' => Some(Primitive::String),
            '@' => Some(Primitive::Object),
            '#' => Some(Primitive::Class),
            ':' => Some(Primitive::Sel),
            '?' => Some(Primitive::Unknown),
            _ => None,
        }
    }
}

} // verus!
