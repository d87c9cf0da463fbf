use objc_encode::encoding::{Encoding, Encodings, EqEncoding, PointerEncoding, StructEncoding};
use objc_encode::parse::{ParseEncodingError, StrEncoding};
use objc_encode::{Pointer, Primitive, Struct};

#[test]
fn test_int_display() {
    assert_eq!(Primitive::Int.to_string(), "i");
}

#[test]
fn test_pointer_display() {
    let e = Pointer::new(Primitive::Int);
    assert_eq!(e.to_string(), "^i");
}

#[test]
fn test_static_struct() {
    let f = (Primitive::Char, Primitive::Int);
    let s = Struct::new("CGPoint", f);
    assert_eq!(s.name(), "CGPoint");
    assert_eq!(s.to_string(), "{CGPoint=ci}");
}

#[test]
fn test_eq_encoding() {
    let i = Primitive::Int;
    let c = Primitive::Char;

    assert!(i.eq_encoding(&i));
    assert!(!i.eq_encoding(&c));

    let p = Pointer::new(i);
    assert!(p.eq_encoding(&p));
    assert!(!p.eq_encoding(&i));

    let s = Struct::new("CGPoint", (c, i));
    assert!(s.eq_encoding(&s));
    assert!(!s.eq_encoding(&i));

    let s2 = StrEncoding::new_unchecked("{CGPoint=ci}");
    assert!(s2.eq_encoding(&s2));
    assert!(s.eq_encoding(&s2));
}

const TABLE: [(Primitive, &str); 20] = [
    (Primitive::Char, "c"),
    (Primitive::Short, "s"),
    (Primitive::Int, "i"),
    (Primitive::Long, "l"),
    (Primitive::LongLong, "q"),
    (Primitive::UChar, "C"),
    (Primitive::UShort, "S"),
    (Primitive::UInt, "I"),
    (Primitive::ULong, "L"),
    (Primitive::ULongLong, "Q"),
    (Primitive::Float, "f"),
    (Primitive::Double, "d"),
    (Primitive::Bool, "B"),
    (Primitive::Void, "v"),
    (Primitive::String, "*"),
    (Primitive::Object, "@"),
    (Primitive::Block, "@?"),
    (Primitive::Class, "#"),
    (Primitive::Sel, ":"),
    (Primitive::Unknown, "?"),
];

#[test]
fn primitive_codes_display_and_parse_back() {
    for (p, code) in TABLE {
        assert_eq!(p.to_string(), code);
        assert_eq!(p.code(), code);
        let parsed = StrEncoding::new(code).unwrap();
        assert!(parsed.eq_encoding(&p));
        assert!(p.eq_encoding(&parsed));
        assert_eq!(parsed.to_string(), code);
    }
}

#[test]
fn single_char_lookup() {
    assert_eq!(Primitive::from_char('q'), Some(Primitive::LongLong));
    assert_eq!(Primitive::from_char('@'), Some(Primitive::Object));
    assert_eq!(Primitive::from_char('x'), None);
}

#[test]
fn nested_pointer_display() {
    let e = Pointer::new(Pointer::new(Primitive::Char));
    assert_eq!(e.to_string(), "^^c");
    let s = Pointer::new(Struct::new("CGPoint", (Primitive::Double, Primitive::Double)));
    assert_eq!(s.to_string(), "^{CGPoint=dd}");
    assert_eq!(s.pointee().to_string(), "{CGPoint=dd}");
}

#[test]
fn nested_struct_display() {
    let point = Struct::new("CGPoint", (Primitive::Double, Primitive::Double));
    let size = Struct::new("CGSize", (Primitive::Double, Primitive::Double));
    let rect = Struct::new("CGRect", (point, size));
    assert_eq!(rect.to_string(), "{CGRect={CGPoint=dd}{CGSize=dd}}");
    let parsed = StrEncoding::new("{CGRect={CGPoint=dd}{CGSize=dd}}").unwrap();
    assert!(rect.eq_encoding(&parsed));
    assert!(parsed.eq_encoding(&rect));
}

#[test]
fn reflexive_for_every_representation() {
    let e1 = Primitive::Sel;
    let e2 = Pointer::new(Primitive::Void);
    let e3 = Struct::new("S", (Primitive::Int, Pointer::new(Primitive::Char), Primitive::Bool));
    let e4 = StrEncoding::new("^{S=i^cB}").unwrap();
    assert!(e1.eq_encoding(&e1));
    assert!(e2.eq_encoding(&e2));
    assert!(e3.eq_encoding(&e3));
    assert!(e4.eq_encoding(&e4));
}

#[test]
fn static_and_parsed_agree_both_ways() {
    let s = Struct::new("CGPoint", (Primitive::Char, Primitive::Int));
    let parsed = StrEncoding::new("{CGPoint=ci}").unwrap();
    assert!(s.eq_encoding(&parsed));
    assert!(parsed.eq_encoding(&s));
    let other = StrEncoding::new("{CGPoint=ic}").unwrap();
    assert!(!s.eq_encoding(&other));
    assert!(!other.eq_encoding(&s));
}

#[test]
fn primitive_never_equals_composite() {
    let obj = Primitive::Object;
    let block = Primitive::Block;
    let p = Pointer::new(Primitive::Object);
    let s = Struct::new("i", (Primitive::Int,));
    let ps = StrEncoding::new("^@").unwrap();
    let ss = StrEncoding::new("{i=i}").unwrap();
    for e in [obj, block] {
        assert!(!e.eq_encoding(&p));
        assert!(!p.eq_encoding(&e));
        assert!(!e.eq_encoding(&s));
        assert!(!s.eq_encoding(&e));
        assert!(!e.eq_encoding(&ps));
        assert!(!e.eq_encoding(&ss));
    }
    assert!(!Primitive::Int.eq_encoding(&ss));
}

#[test]
fn field_count_mismatch_is_unequal() {
    let a = Struct::new("Pair", (Primitive::Int, Primitive::Int));
    let b = Struct::new("Pair", (Primitive::Int, Primitive::Int, Primitive::Int));
    let c = Struct::new("Pair", (Primitive::Int,));
    assert!(!a.eq_encoding(&b));
    assert!(!b.eq_encoding(&a));
    assert!(!a.eq_encoding(&c));
    let parsed = StrEncoding::new("{Pair=iii}").unwrap();
    assert!(!a.eq_encoding(&parsed));
    assert!(b.eq_encoding(&parsed));
}

#[test]
fn field_order_matters() {
    let a = Struct::new("CGPoint", (Primitive::Char, Primitive::Int));
    let b = Struct::new("CGPoint", (Primitive::Int, Primitive::Char));
    assert!(!a.eq_encoding(&b));
    assert!(!b.eq_encoding(&a));
}

#[test]
fn names_must_match() {
    let a = Struct::new("CGPoint", (Primitive::Char, Primitive::Int));
    let b = Struct::new("CGSize", (Primitive::Char, Primitive::Int));
    assert!(!a.eq_encoding(&b));
    let fields = (Primitive::Char, Primitive::Int).descriptors();
    assert!(a.eq_struct("CGPoint", &fields));
    assert!(!a.eq_struct("CGSize", &fields));
    let short = (Primitive::Char,).descriptors();
    assert!(!a.eq_struct("CGPoint", &short));
}

#[test]
fn parse_rejects_malformed() {
    let bad = [
        "not a valid encoding",
        "",
        "{CGPoint=ci",
        "{CGPoint",
        "{CGPoint}",
        "x",
        "^",
        "ii",
        "{CGPoint=ci}i",
        "{S=x}",
    ];
    for s in bad {
        assert_eq!(StrEncoding::new(s).err(), Some(ParseEncodingError::Malformed));
    }
}

#[test]
fn parse_accepts_and_matches_static() {
    let parsed = StrEncoding::new("{CGPoint=ci}").unwrap();
    assert_eq!(parsed.as_str(), "{CGPoint=ci}");
    let s = Struct::new("CGPoint", (Primitive::Char, Primitive::Int));
    assert!(parsed.eq_encoding(&s));
    assert!(StrEncoding::new("{Empty=}").is_ok());
    assert!(StrEncoding::new("^^{A={B=^@?}q}").is_ok());
}

#[test]
fn block_code_is_read_whole() {
    let parsed = StrEncoding::new("{S=@?}").unwrap();
    assert!(parsed.eq_encoding(&Struct::new("S", (Primitive::Block,))));
    assert!(!parsed.eq_encoding(&Struct::new("S", (Primitive::Object, Primitive::Unknown))));
}

#[test]
fn unchecked_matches_checked() {
    let texts = ["{CGPoint=ci}", "^i", "@?", "{S={T=^v}#}"];
    let others = [
        StrEncoding::new("{CGPoint=ci}").unwrap(),
        StrEncoding::new("^i").unwrap(),
        StrEncoding::new("i").unwrap(),
        StrEncoding::new("@?").unwrap(),
    ];
    for t in texts {
        let checked = StrEncoding::new(t).unwrap();
        let unchecked = StrEncoding::new_unchecked(t);
        assert!(checked.eq_encoding(&unchecked));
        for o in &others {
            assert_eq!(checked.eq_encoding(o), unchecked.eq_encoding(o));
            assert_eq!(o.eq_encoding(&checked), o.eq_encoding(&unchecked));
        }
        assert_eq!(checked.to_string(), unchecked.to_string());
    }
}

#[test]
fn descriptor_of_parsed_string() {
    let parsed = StrEncoding::new("{CGPoint=ci}").unwrap();
    let d = parsed.descriptor();
    assert_eq!(d.to_string(), "{CGPoint=ci}");
    let s = Struct::new("CGPoint", (Primitive::Char, Primitive::Int));
    assert!(d.eq_encoding(&s));
    assert!(d.eq_descriptor(&s.descriptor()));
    assert!(!d.eq_descriptor(&Primitive::Char.descriptor()));
}

#[test]
fn parsed_scan_against_descriptors() {
    let parsed = StrEncoding::new("{CGPoint=ci}").unwrap();
    let longer = Struct::new("CGPoint", (Primitive::Char, Primitive::Int, Primitive::Int));
    let shorter = Struct::new("CGPoint", (Primitive::Char,));
    let renamed = Struct::new("CGPoin", (Primitive::Char, Primitive::Int));
    let same = Struct::new("CGPoint", (Primitive::Char, Primitive::Int));
    assert!(!parsed.matches_descriptor(&longer.descriptor()));
    assert!(!parsed.matches_descriptor(&shorter.descriptor()));
    assert!(!parsed.matches_descriptor(&renamed.descriptor()));
    assert!(parsed.matches_descriptor(&same.descriptor()));
    assert!(!parsed.matches_descriptor(&Primitive::Char.descriptor()));

    let ptr = StrEncoding::new("^^i").unwrap();
    assert!(ptr.matches_descriptor(&Pointer::new(Pointer::new(Primitive::Int)).descriptor()));
    assert!(!ptr.matches_descriptor(&Pointer::new(Primitive::Int).descriptor()));
    assert!(!ptr.matches_descriptor(&Pointer::new(Pointer::new(Primitive::Char)).descriptor()));

    let block = StrEncoding::new("@?").unwrap();
    assert!(block.matches_descriptor(&Primitive::Block.descriptor()));
    assert!(!block.matches_descriptor(&Primitive::Object.descriptor()));
}
