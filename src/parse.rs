use vstd::prelude::*;
use crate::descriptor::{display, display_all, lemma_tys_of, tys_of, Descriptor, Ty};
use crate::encoding::Encoding;
use crate::primitive::{code_of, primitive_of_char, Primitive};

verus! {

/// The position of the first `=` in `s` at or after `j`, if any.
pub open spec fn name_end(s: Seq<char>, j: int) -> Option<int>
    decreases s.len() - j,
{
    if j < 0 || j >= s.len() {
        None
    } else if s[j] == '=' {
        Some(j)
    } else {
        name_end(s, j + 1)
    }
}

/// Reads one encoding of `s` that starts at `i`: the type it denotes and the
/// position just after it.
pub open spec fn parse_at(s: Seq<char>, i: int) -> Option<(Ty, int)>
    decreases s.len() - i, 0int,
{
    if i < 0 || i >= s.len() {
        None
    } else if s[i] == '@' && i + 1 < s.len() && s[i + 1] == '?' {
        Some((Ty::Primitive(Primitive::Block), i + 2))
    } else if s[i] == '^' {
        match parse_at(s, i + 1) {
            Some((t, e)) => Some((Ty::Pointer(Box::new(t)), e)),
            None => None,
        }
    } else if s[i] == '{' {
        match name_end(s, i + 1) {
            Some(j) => if i < j < s.len() {
                match parse_fields(s, j + 1) {
                    Some((fs, e)) => Some((Ty::Struct(s.subrange(i + 1, j), fs), e)),
                    None => None,
                }
            } else {
                None
            },
            None => None,
        }
    } else {
        match primitive_of_char(s[i]) {
            Some(p) => Some((Ty::Primitive(p), i + 1)),
            None => None,
        }
    }
}

/// Reads the fields of a struct, starting at `k`, up to and including the
/// closing `}`: the fields' types and the position just after the `}`.
pub open spec fn parse_fields(s: Seq<char>, k: int) -> Option<(Seq<Ty>, int)>
    decreases s.len() - k, 1int,
{
    if k < 0 || k >= s.len() {
        None
    } else if s[k] == '}' {
        Some((Seq::empty(), k + 1))
    } else {
        match parse_at(s, k) {
            Some((t, e)) => if k < e <= s.len() {
                match parse_fields(s, e) {
                    Some((ts, e2)) => Some((seq![t] + ts, e2)),
                    None => None,
                }
            } else {
                None
            },
            None => None,
        }
    }
}

/// The type that the whole of `s` encodes, if `s` is exactly one well-formed
/// encoding.
pub open spec fn parse(s: Seq<char>) -> Option<Ty> {
    match parse_at(s, 0) {
        Some((t, e)) => if e == s.len() {
            Some(t)
        } else {
            None
        },
        None => None,
    }
}

proof fn lemma_name_end(s: Seq<char>, j: int)
    ensures
        name_end(s, j) matches Some(e) ==> j <= e < s.len() && s[e] == '=',
    decreases s.len() - j,
{
    if 0 <= j < s.len() && s[j] != '=' {
        lemma_name_end(s, j + 1);
    }
}

proof fn lemma_parse_at_advances(s: Seq<char>, i: int)
    ensures
        parse_at(s, i) matches Some((t, e)) ==> i < e <= s.len(),
    decreases s.len() - i, 0int,
{
    if 0 <= i < s.len() {
        if s[i] == '@' && i + 1 < s.len() && s[i + 1] == '?' {
        } else if s[i] == '^' {
            lemma_parse_at_advances(s, i + 1);
        } else if s[i] == '{' {
            lemma_name_end(s, i + 1);
            if let Some(j) = name_end(s, i + 1) {
                if i < j < s.len() {
                    lemma_parse_fields_advances(s, j + 1);
                }
            }
        }
    }
}

proof fn lemma_parse_fields_advances(s: Seq<char>, k: int)
    ensures
        parse_fields(s, k) matches Some((ts, e)) ==> k < e <= s.len(),
    decreases s.len() - k, 1int,
{
    if 0 <= k < s.len() && s[k] != '}' {
        lemma_parse_at_advances(s, k);
        if let Some((t, e)) = parse_at(s, k) {
            if k < e <= s.len() {
                lemma_parse_fields_advances(s, e);
            }
        }
    }
}

proof fn lemma_char_code(c: char)
    ensures
        primitive_of_char(c) matches Some(p) ==> code_of(p) == seq![c],
{
}

proof fn lemma_display_all_cons(t: Ty, ts: Seq<Ty>)
    ensures
        display_all(seq![t] + ts) == display(t) + display_all(ts),
    decreases ts.len(),
{
    let all = seq![t] + ts;
    if ts.len() == 0 {
        assert(all.subrange(0, 0) =~= Seq::<Ty>::empty());
        assert(all[0] == t);
        assert(display_all(Seq::<Ty>::empty()) == Seq::<char>::empty());
        assert(display_all(all) == display_all(all.subrange(0, 0)) + display(t));
        assert(display_all(all) =~= display(t) + display_all(ts));
    } else {
        let init = ts.subrange(0, ts.len() - 1);
        lemma_display_all_cons(t, init);
        assert(all.subrange(0, all.len() - 1) =~= seq![t] + init);
        assert(all[all.len() - 1] == ts[ts.len() - 1]);
        assert(display_all(all) == display_all(seq![t] + init) + display(ts[ts.len() - 1]));
        assert(display_all(ts) == display_all(init) + display(ts[ts.len() - 1]));
        assert(display_all(all) =~= display(t) + display_all(ts));
    }
}

proof fn lemma_parse_at_display(s: Seq<char>, i: int)
    ensures
        parse_at(s, i) matches Some((t, e)) ==> s.subrange(i, e) == display(t),
    decreases s.len() - i, 0int,
{
    if 0 <= i < s.len() {
        if s[i] == '@' && i + 1 < s.len() && s[i + 1] == '?' {
            assert(s.subrange(i, i + 2) =~= code_of(Primitive::Block));
        } else if s[i] == '^' {
            lemma_parse_at_display(s, i + 1);
            lemma_parse_at_advances(s, i + 1);
            if let Some((t, e)) = parse_at(s, i + 1) {
                assert(s.subrange(i, e) =~= seq!['^'] + s.subrange(i + 1, e));
            }
        } else if s[i] == '{' {
            lemma_name_end(s, i + 1);
            if let Some(j) = name_end(s, i + 1) {
                if i < j < s.len() {
                    lemma_parse_fields_display(s, j + 1);
                    lemma_parse_fields_advances(s, j + 1);
                    if let Some((fs, e)) = parse_fields(s, j + 1) {
                        let close = display_all(fs) + seq!['}'];
                        assert(s.subrange(i, e) =~= seq!['{'] + s.subrange(i + 1, j) + seq!['='] + s.subrange(j + 1, e));
                        assert(s.subrange(i, e) =~= seq!['{'] + s.subrange(i + 1, j) + seq!['='] + display_all(fs) + seq!['}']);
                    }
                }
            }
        } else {
            lemma_char_code(s[i]);
            if let Some(p) = primitive_of_char(s[i]) {
                assert(s.subrange(i, i + 1) =~= seq![s[i]]);
            }
        }
    }
}

proof fn lemma_parse_fields_display(s: Seq<char>, k: int)
    ensures
        parse_fields(s, k) matches Some((ts, e)) ==> s.subrange(k, e) == display_all(ts) + seq!['}'],
    decreases s.len() - k, 1int,
{
    if 0 <= k < s.len() {
        if s[k] == '}' {
            assert(s.subrange(k, k + 1) =~= display_all(Seq::<Ty>::empty()) + seq!['}']);
        } else {
            lemma_parse_at_display(s, k);
            lemma_parse_at_advances(s, k);
            if let Some((t, e)) = parse_at(s, k) {
                if k < e <= s.len() {
                    lemma_parse_fields_display(s, e);
                    lemma_parse_fields_advances(s, e);
                    if let Some((ts, e2)) = parse_fields(s, e) {
                        lemma_display_all_cons(t, ts);
                        assert(s.subrange(k, e2) =~= s.subrange(k, e) + s.subrange(e, e2));
                        assert(s.subrange(k, e2) =~= display_all(seq![t] + ts) + seq!['}']);
                    }
                }
            }
        }
    }
}

/// A well-formed encoding string is exactly the text of the type it denotes.
pub proof fn lemma_parse_display(s: Seq<char>)
    ensures
        parse(s) matches Some(t) ==> display(t) == s,
{
    lemma_parse_at_display(s, 0);
    if let Some(t) = parse(s) {
        assert(s.subrange(0, s.len() as int) =~= s);
    }
}

/// The first character of a well-formed encoding decides its kind: `^`
/// begins exactly the pointers, `{` exactly the structs; every other
/// well-formed encoding is a primitive.
pub proof fn lemma_parsed_kind(s: Seq<char>)
    requires
        parse(s) is Some,
    ensures
        s.len() > 0,
        (parse(s)->0 is Pointer) <==> s[0] == '^',
        (parse(s)->0 is Struct) <==> s[0] == '{',
        (parse(s)->0 is Primitive) <==> (s[0] != '^' && s[0] != '{'),
{
}

/// The position of the first `=` in `s` at or after `j`, if any.
fn find_name_end(s: &str, n: usize, j: usize) -> (r: Option<usize>)
    requires
        n == s@.len(),
        j <= n,
    ensures
        r matches Some(e) ==> name_end(s@, j as int) == Some(e as int),
        r is None ==> name_end(s@, j as int) is None,
{
    let mut k: usize = j;
    while k < n
        invariant
            j <= k <= n == s@.len(),
            name_end(s@, j as int) == name_end(s@, k as int),
        decreases n - k,
    {
        if s.get_char(k) == '=' {
            return Some(k);
        }
        k = k + 1;
    }
    None
}

/// Reads one encoding of `s` that starts at `i`.
fn read_at(s: &str, n: usize, i: usize) -> (r: Option<(Descriptor, usize)>)
    requires
        n == s@.len(),
    ensures
        r matches Some((d, e)) ==> parse_at(s@, i as int) == Some((d.ty(), e as int)),
        r is None ==> parse_at(s@, i as int) is None,
    decreases n - i, 0int,
{
    if i >= n {
        return None;
    }
    let c = s.get_char(i);
    if c == '@' && i + 1 < n && s.get_char(i + 1) == '?' {
        Some((Descriptor::Primitive(Primitive::Block), i + 2))
    } else if c == '^' {
        match read_at(s, n, i + 1) {
            Some((d, e)) => Some((Descriptor::Pointer(Box::new(d)), e)),
            None => None,
        }
    } else if c == '{' {
        proof {
            lemma_name_end(s@, i + 1);
        }
        match find_name_end(s, n, i + 1) {
            Some(j) => match read_fields(s, n, j + 1) {
                Some((fields, e)) => {
                    let name = String::from_str(s.substring_char(i + 1, j));
                    Some((Descriptor::Struct(name, fields), e))
                },
                None => None,
            },
            None => None,
        }
    } else {
        match Primitive::from_char(c) {
            Some(p) => Some((Descriptor::Primitive(p), i + 1)),
            None => None,
        }
    }
}

/// Reads the fields of a struct that start at `k`, up to and including the
/// closing `}`.
fn read_fields(s: &str, n: usize, k: usize) -> (r: Option<(Vec<Descriptor>, usize)>)
    requires
        n == s@.len(),
    ensures
        r matches Some((fs, e)) ==> parse_fields(s@, k as int) == Some((tys_of(fs@), e as int)),
        r is None ==> parse_fields(s@, k as int) is None,
    decreases n - k, 1int,
{
    let mut fields: Vec<Descriptor> = Vec::new();
    let mut pos: usize = k;
    while pos < n
        invariant
            n == s@.len(),
            k <= pos,
            parse_fields(s@, pos as int) matches Some((ts, e)) ==> parse_fields(s@, k as int) == Some((tys_of(fields@) + ts, e)),
            parse_fields(s@, pos as int) is None ==> parse_fields(s@, k as int) is None,
        decreases n - pos,
    {
        if s.get_char(pos) == '}' {
            assert(tys_of(fields@) + Seq::<Ty>::empty() =~= tys_of(fields@));
            return Some((fields, pos + 1));
        }
        proof {
            lemma_parse_at_advances(s@, pos as int);
        }
        match read_at(s, n, pos) {
            Some((d, e)) => {
                let ghost prev = fields@;
                let ghost t = d.ty();
                fields.push(d);
                proof {
                    assert(fields@.subrange(0, fields@.len() - 1) =~= prev);
                    assert(tys_of(fields@) == tys_of(prev).push(t));
                    if let Some((ts, e2)) = parse_fields(s@, e as int) {
                        assert(tys_of(prev) + (seq![t] + ts) =~= tys_of(fields@) + ts);
                    }
                }
                pos = e;
            },
            None => {
                return None;
            },
        }
    }
    None
}

/// Whether `s` holds, from `i` to `j`, exactly the characters of `name`.
fn text_is(s: &str, i: usize, j: usize, name: &str) -> (r: bool)
    requires
        i <= j <= s@.len(),
    ensures
        r == (s@.subrange(i as int, j as int) == name@),
{
    let len = name.unicode_len();
    if j - i != len {
        return false;
    }
    let mut k: usize = 0;
    while k < len
        invariant
            i <= j <= s@.len(),
            len == name@.len() == j - i,
            k <= len,
            forall|m: int| 0 <= m < k ==> s@[i + m] == name@[m],
        decreases len - k,
    {
        if s.get_char(i + k) != name.get_char(k) {
            assert(s@.subrange(i as int, j as int)[k as int] != name@[k as int]);
            return false;
        }
        k = k + 1;
    }
    assert(s@.subrange(i as int, j as int) =~= name@);
    true
}

/// Reads `s` from `i` against `d`, without building anything: the position
/// just after the encoding at `i` if that encoding denotes the type of `d`.
fn scan_at(s: &str, n: usize, i: usize, d: &Descriptor) -> (r: Option<usize>)
    requires
        n == s@.len(),
    ensures
        r matches Some(e) ==> parse_at(s@, i as int) == Some((d.ty(), e as int)),
        r is None ==> !(parse_at(s@, i as int) is Some && (parse_at(s@, i as int)->0).0 == d.ty()),
    decreases d,
{
    if i >= n {
        return None;
    }
    let c = s.get_char(i);
    let block = c == '@' && i + 1 < n && s.get_char(i + 1) == '?';
    match d {
        Descriptor::Primitive(p) => {
            if block {
                if *p == Primitive::Block {
                    Some(i + 2)
                } else {
                    None
                }
            } else if c == '^' || c == '{' {
                None
            } else {
                match Primitive::from_char(c) {
                    Some(q) => if q == *p {
                        Some(i + 1)
                    } else {
                        None
                    },
                    None => None,
                }
            }
        },
        Descriptor::Pointer(b) => {
            if block || c != '^' {
                return None;
            }
            scan_at(s, n, i + 1, b)
        },
        Descriptor::Struct(name, fields) => {
            if block || c != '{' {
                return None;
            }
            proof {
                lemma_name_end(s@, i + 1);
                lemma_tys_of(fields@);
            }
            let j = match find_name_end(s, n, i + 1) {
                Some(j) => j,
                None => {
                    return None;
                },
            };
            if !text_is(s, i + 1, j, name.as_str()) {
                return None;
            }
            let ghost k0 = j + 1;
            let ghost whole = match parse_fields(s@, k0) {
                Some((fs, e)) => Some((Ty::Struct(name@, fs), e)),
                None => None,
            };
            assert(parse_at(s@, i as int) == whole);
            let mut pos: usize = j + 1;
            let mut k: usize = 0;
            while k < fields.len()
                invariant
                    n == s@.len(),
                    k0 <= pos,
                    k <= fields.len(),
                    parse_at(s@, i as int) == whole,
                    whole == match parse_fields(s@, k0) {
                        Some((fs, e)) => Some((Ty::Struct(name@, fs), e)),
                        None => None,
                    },
                    d.ty() == Ty::Struct(name@, tys_of(fields@)),
                    *d is Struct && d->Struct_1 == *fields,
                    tys_of(fields@).len() == fields.len(),
                    forall|m: int| 0 <= m < fields.len() ==> #[trigger] tys_of(fields@)[m] == fields@[m].ty(),
                    parse_fields(s@, pos as int) matches Some((ts, e)) ==> parse_fields(s@, k0) == Some((tys_of(fields@).subrange(0, k as int) + ts, e)),
                    parse_fields(s@, pos as int) is None ==> parse_fields(s@, k0) is None,
                decreases fields.len() - k,
            {
                if pos >= n {
                    return None;
                }
                if s.get_char(pos) == '}' {
                    assert(tys_of(fields@).subrange(0, k as int) + Seq::<Ty>::empty() =~= tys_of(fields@).subrange(0, k as int));
                    return None;
                }
                proof {
                    lemma_parse_at_advances(s@, pos as int);
                    assert(decreases_to!(*d => *fields));
                    assert(decreases_to!(*fields => fields[k as int]));
                }
                match scan_at(s, n, pos, &fields[k]) {
                    Some(e) => {
                        proof {
                            let ts = tys_of(fields@);
                            if let Some((rest, e2)) = parse_fields(s@, e as int) {
                                assert(ts.subrange(0, k as int) + (seq![ts[k as int]] + rest) =~= ts.subrange(0, k + 1) + rest);
                            }
                        }
                        pos = e;
                        k = k + 1;
                    },
                    None => {
                        proof {
                            if let Some((all, e2)) = parse_fields(s@, k0) {
                                let (rest, e3) = parse_fields(s@, pos as int)->0;
                                let (t, e4) = parse_at(s@, pos as int)->0;
                                assert(rest[0] == t);
                                assert(all[k as int] == rest[0]);
                                assert(t != tys_of(fields@)[k as int]);
                                assert(all != tys_of(fields@));
                            }
                        }
                        return None;
                    },
                }
            }
            if pos < n && s.get_char(pos) == '}' {
                assert(tys_of(fields@).subrange(0, k as int) + Seq::<Ty>::empty() =~= tys_of(fields@));
                Some(pos + 1)
            } else {
                proof {
                    if let Some((all, e2)) = parse_fields(s@, k0) {
                        let (rest, e3) = parse_fields(s@, pos as int)->0;
                        assert(rest.len() > 0);
                        assert(all.len() > fields.len());
                    }
                }
                None
            }
        },
    }
}

/// The descriptor of the whole of `s`, if `s` is exactly one well-formed
/// encoding.
pub fn parse_str(s: &str) -> (r: Option<Descriptor>)
    ensures
        r matches Some(d) ==> parse(s@) == Some(d.ty()),
        r is None <==> parse(s@) is None,
{
    let n = s.unicode_len();
    match read_at(s, n, 0) {
        Some((d, e)) => if e == n {
            Some(d)
        } else {
            None
        },
        None => None,
    }
}

/// The error of a string that is not exactly one well-formed encoding: an
/// unknown code, an unterminated struct, a premature end, or trailing
/// characters.
#[derive(Clone, Copy, Debug, PartialEq, Eq, Structural)]
pub enum ParseEncodingError {
    Malformed,
}

/// An encoding read from a string, such as one the runtime hands out. The
/// string is kept as it is and read again at each use.
#[derive(Clone, Copy, Debug)]
pub struct StrEncoding<'a> {
    s: &'a str,
}

impl<'a> StrEncoding<'a> {
    #[verifier::type_invariant]
    spec fn well_formed(self) -> bool {
        parse(self.s@) is Some
    }

    /// The string's text.
    pub closed spec fn text(self) -> Seq<char> {
        self.s@
    }

    /// Checks that `s` is exactly one well-formed encoding.
    pub fn new(s: &'a str) -> (r: Result<StrEncoding<'a>, ParseEncodingError>)
        ensures
            r is Ok <==> parse(s@) is Some,
            r matches Ok(e) ==> e.text() == s@ && Some(e.ty()) == parse(s@),
            r matches Err(err) ==> err == ParseEncodingError::Malformed,
    {
        match parse_str(s) {
            Some(_) => Ok(StrEncoding { s }),
            None => Err(ParseEncodingError::Malformed),
        }
    }

    /// Takes `s` as it is, without checking it, for a string known to be one
    /// well-formed encoding (one the runtime produced).
    pub fn new_unchecked(s: &'a str) -> (r: StrEncoding<'a>)
        requires
            parse(s@) is Some,
        ensures
            r.text() == s@,
            Some(r.ty()) == parse(s@),
    {
        StrEncoding { s }
    }

    /// The string this encoding was read from.
    pub fn as_str(&self) -> (r: &'a str)
        ensures
            r@ == self.text(),
    {
        self.s
    }
}

/// Two parsed encodings of the same text denote the same type, whichever
/// constructor made them: `new_unchecked` on a string that `new` accepts
/// compares exactly as the checked encoding does.
pub proof fn lemma_same_text_same_type(a: StrEncoding, b: StrEncoding)
    requires
        a.text() == b.text(),
    ensures
        a.ty() == b.ty(),
{
}

/// Any encoding, of any representation, that is equivalent to a parsed
/// encoding has exactly the parsed string as its text.
pub proof fn lemma_equivalent_to_parsed<E: Encoding>(p: StrEncoding, e: &E)
    requires
        parse(p.text()) is Some,
        p.ty() == e.ty(),
    ensures
        display(e.ty()) == p.text(),
{
    lemma_parse_display(p.s@);
}

impl<'a> Encoding for StrEncoding<'a> {
    closed spec fn ty(&self) -> Ty {
        match parse(self.s@) {
            Some(t) => t,
            None => Ty::Primitive(Primitive::Unknown),
        }
    }

    fn descriptor(&self) -> (d: Descriptor) {
        proof {
            use_type_invariant(self);
        }
        match parse_str(self.s) {
            Some(d) => d,
            None => Descriptor::Primitive(Primitive::Unknown),
        }
    }

    fn matches_descriptor(&self, d: &Descriptor) -> (r: bool) {
        proof {
            use_type_invariant(self);
        }
        let n = self.s.unicode_len();
        match scan_at(self.s, n, 0, d) {
            Some(e) => e == n,
            None => false,
        }
    }

    fn to_string(&self) -> (r: String) {
        proof {
            use_type_invariant(self);
            lemma_parse_display(self.s@);
        }
        String::from_str(self.s)
    }
}

} // verus!
