//! Field and method descriptors: the compact type grammar of the class file.
use vstd::prelude::*;

use crate::error::Error;

verus! {

pub const CODE_BYTE: u8 = 66;
pub const CODE_CHAR: u8 = 67;
pub const CODE_DOUBLE: u8 = 68;
pub const CODE_FLOAT: u8 = 70;
pub const CODE_INT: u8 = 73;
pub const CODE_LONG: u8 = 74;
pub const CODE_SHORT: u8 = 83;
pub const CODE_BOOLEAN: u8 = 90;
pub const CODE_CLASS: u8 = 76;
pub const CODE_VOID: u8 = 86;
pub const SEMICOLON: u8 = 59;
pub const OPEN_BRACKET: u8 = 91;
pub const OPEN_PAREN: u8 = 40;
pub const CLOSE_PAREN: u8 = 41;

/// The type that a field descriptor names.
#[derive(Debug)]
pub enum TypeDescriptor {
    Byte,
    Char,
    Double,
    Float,
    Int,
    Long,
    Short,
    Boolean,
    /// `Ljava/lang/String;`
    String,
    /// `Ljava/lang/Class;`
    Class,
    Array(Box<TypeDescriptor>),
    /// Any other class, by its binary name (`java/util/List`).
    ClassName(Vec<u8>),
}

/// The parameter types and the return type (`None` for `V`) of a method.
#[derive(Debug)]
pub struct MethodDescriptor {
    pub param_tys: Vec<TypeDescriptor>,
    pub return_ty: Option<TypeDescriptor>,
}

pub open spec fn is_primitive_code(c: u8) -> bool {
    c == 66 || c == 67 || c == 68 || c == 70 || c == 73 || c == 74 || c == 83 || c == 90
}

/// `java/lang/String`
pub open spec fn java_lang_string() -> Seq<u8> {
    seq![106u8, 97, 118, 97, 47, 108, 97, 110, 103, 47, 83, 116, 114, 105, 110, 103]
}

/// `java/lang/Class`
pub open spec fn java_lang_class() -> Seq<u8> {
    seq![106u8, 97, 118, 97, 47, 108, 97, 110, 103, 47, 67, 108, 97, 115, 115]
}

/// `L name ;`
pub open spec fn class_ref(name: Seq<u8>) -> Seq<u8> {
    seq![76u8] + name + seq![59u8]
}

/// The descriptor text of a type.
pub open spec fn encode(t: TypeDescriptor) -> Seq<u8>
    decreases t,
{
    match t {
        TypeDescriptor::Byte => seq![66u8],
        TypeDescriptor::Char => seq![67u8],
        TypeDescriptor::Double => seq![68u8],
        TypeDescriptor::Float => seq![70u8],
        TypeDescriptor::Int => seq![73u8],
        TypeDescriptor::Long => seq![74u8],
        TypeDescriptor::Short => seq![83u8],
        TypeDescriptor::Boolean => seq![90u8],
        TypeDescriptor::String => class_ref(java_lang_string()),
        TypeDescriptor::Class => class_ref(java_lang_class()),
        TypeDescriptor::Array(e) => seq![91u8] + encode(*e),
        TypeDescriptor::ClassName(n) => class_ref(n@),
    }
}

/// The form the parser yields: class names are nonempty and free of `;`,
/// and the two fast-path classes are never spelled out as class names.
pub open spec fn canonical(t: TypeDescriptor) -> bool
    decreases t,
{
    match t {
        TypeDescriptor::Array(e) => canonical(*e),
        TypeDescriptor::ClassName(n) => n@.len() > 0 && !n@.contains(59u8) && n@
            != java_lang_string() && n@ != java_lang_class(),
        _ => true,
    }
}

/// The position of the first `;` at or after `i`.
pub open spec fn first_semicolon(s: Seq<u8>, i: int) -> Option<int>
    decreases s.len() - i,
{
    if i < 0 || i >= s.len() {
        None
    } else if s[i] == 59u8 {
        Some(i)
    } else {
        first_semicolon(s, i + 1)
    }
}

/// Where the field descriptor that starts at `p` ends, if one does.
pub open spec fn desc_end(s: Seq<u8>, p: int) -> Option<int>
    decreases s.len() - p,
{
    if p < 0 || p >= s.len() {
        None
    } else if is_primitive_code(s[p]) {
        Some(p + 1)
    } else if s[p] == 76u8 {
        match first_semicolon(s, p + 1) {
            Some(k) => if k > p + 1 {
                Some(k + 1)
            } else {
                None
            },
            None => None,
        }
    } else if s[p] == 91u8 {
        desc_end(s, p + 1)
    } else {
        None
    }
}

proof fn lemma_first_semicolon(s: Seq<u8>, i: int)
    ensures
        match first_semicolon(s, i) {
            Some(k) => 0 <= i <= k < s.len() && s[k] == 59u8 && !s.subrange(i, k).contains(59u8),
            None => 0 <= i <= s.len() ==> !s.subrange(i, s.len() as int).contains(59u8),
        },
    decreases s.len() - i,
{
    if 0 <= i < s.len() && s[i] != 59u8 {
        lemma_first_semicolon(s, i + 1);
        match first_semicolon(s, i + 1) {
            Some(k) => {
                assert forall|j: int| 0 <= j < s.subrange(i, k).len() implies s.subrange(i, k)[j] != 59u8 by {
                    if j > 0 {
                        assert(s.subrange(i, k)[j] == s.subrange(i + 1, k)[j - 1]);
                    }
                }
            },
            None => {
                assert forall|j: int| 0 <= j < s.subrange(i, s.len() as int).len() implies s.subrange(i, s.len() as int)[j] != 59u8 by {
                    if j > 0 {
                        assert(s.subrange(i, s.len() as int)[j] == s.subrange(i + 1, s.len() as int)[j - 1]);
                    }
                }
            },
        }
    }
}

/// Finds the first `;` at or after `i`.
fn find_semicolon(s: &[u8], i: usize) -> (r: Option<usize>)
    ensures
        match r {
            Some(k) => first_semicolon(s@, i as int) == Some(k as int),
            None => first_semicolon(s@, i as int) is None,
        },
    decreases s.len() - i,
{
    if i >= s.len() {
        None
    } else if s[i] == SEMICOLON {
        Some(i)
    } else {
        find_semicolon(s, i + 1)
    }
}

/// Whether `a` and `b` hold the same bytes.
pub fn bytes_equal(a: &[u8], b: &[u8]) -> (r: bool)
    ensures
        r == (a@ == b@),
{
    if a.len() != b.len() {
        return false;
    }
    let mut i: usize = 0;
    while i < a.len()
        invariant
            a@.len() == b@.len(),
            i <= a@.len(),
            a@.subrange(0, i as int) == b@.subrange(0, i as int),
        decreases a.len() - i,
    {
        if a[i] != b[i] {
            assert(a@[i as int] != b@[i as int]);
            return false;
        }
        assert(a@.subrange(0, i + 1) =~= a@.subrange(0, i as int).push(a@[i as int]));
        assert(b@.subrange(0, i + 1) =~= b@.subrange(0, i as int).push(b@[i as int]));
        i = i + 1;
    }
    assert(a@ =~= a@.subrange(0, i as int));
    assert(b@ =~= b@.subrange(0, i as int));
    true
}

fn java_lang_string_bytes() -> (r: Vec<u8>)
    ensures
        r@ == java_lang_string(),
{
    let r = vec![106u8, 97, 118, 97, 47, 108, 97, 110, 103, 47, 83, 116, 114, 105, 110, 103];
    assert(r@ =~= java_lang_string());
    r
}

fn java_lang_class_bytes() -> (r: Vec<u8>)
    ensures
        r@ == java_lang_class(),
{
    let r = vec![106u8, 97, 118, 97, 47, 108, 97, 110, 103, 47, 67, 108, 97, 115, 115];
    assert(r@ =~= java_lang_class());
    r
}

pub open spec fn text_error() -> Error {
    Error::TextError
}

impl TypeDescriptor {
    /// Parses the field descriptor that starts at `p` in `s`; returns it with
    /// the position just after it.
    pub fn parse(s: &[u8], p: usize) -> (r: Result<(TypeDescriptor, usize), Error>)
        ensures
            match r {
                Ok((t, q)) => {
                    &&& desc_end(s@, p as int) == Some(q as int)
                    &&& p < q <= s@.len()
                    &&& encode(t) == s@.subrange(p as int, q as int)
                    &&& canonical(t)
                },
                Err(e) => desc_end(s@, p as int) is None && e == text_error(),
            },
        decreases s.len() - p,
    {
        if p >= s.len() {
            return Err(Error::TextError);
        }
        let c = s[p];
        let t = if c == CODE_BYTE {
            TypeDescriptor::Byte
        } else if c == CODE_CHAR {
            TypeDescriptor::Char
        } else if c == CODE_DOUBLE {
            TypeDescriptor::Double
        } else if c == CODE_FLOAT {
            TypeDescriptor::Float
        } else if c == CODE_INT {
            TypeDescriptor::Int
        } else if c == CODE_LONG {
            TypeDescriptor::Long
        } else if c == CODE_SHORT {
            TypeDescriptor::Short
        } else if c == CODE_BOOLEAN {
            TypeDescriptor::Boolean
        } else if c == CODE_CLASS {
            let k = match find_semicolon(s, p + 1) {
                Some(k) => k,
                None => {
                    return Err(Error::TextError);
                },
            };
            if k <= p + 1 {
                return Err(Error::TextError);
            }
            proof {
                lemma_first_semicolon(s@, p + 1);
            }
            let name = vstd::slice::slice_subrange(s, p + 1, k);
            let t = if bytes_equal(name, java_lang_string_bytes().as_slice()) {
                TypeDescriptor::String
            } else if bytes_equal(name, java_lang_class_bytes().as_slice()) {
                TypeDescriptor::Class
            } else {
                TypeDescriptor::ClassName(vstd::slice::slice_to_vec(name))
            };
            assert(s@.subrange(p as int, k + 1) =~= class_ref(name@));
            return Ok((t, k + 1));
        } else if c == OPEN_BRACKET {
            let (e, q) = TypeDescriptor::parse(s, p + 1)?;
            let t = TypeDescriptor::Array(Box::new(e));
            assert(s@.subrange(p as int, q as int) =~= seq![91u8] + s@.subrange(p + 1, q as int));
            return Ok((t, q));
        } else {
            return Err(Error::TextError);
        };
        assert(s@.subrange(p as int, p + 1) =~= seq![c]);
        Ok((t, p + 1))
    }

    /// Parses `s` as one field descriptor with nothing after it.
    pub fn from_bytes(s: &[u8]) -> (r: Result<TypeDescriptor, Error>)
        ensures
            match r {
                Ok(t) => desc_end(s@, 0) == Some(s@.len() as int) && encode(t) == s@ && canonical(t),
                Err(e) => desc_end(s@, 0) != Some(s@.len() as int) && e == text_error(),
            },
    {
        let (t, q) = TypeDescriptor::parse(s, 0)?;
        if q != s.len() {
            return Err(Error::TextError);
        }
        assert(s@.subrange(0, q as int) =~= s@);
        Ok(t)
    }
}

/// Where the greedy run of field descriptors that starts at `p` ends.
pub open spec fn params_end(s: Seq<u8>, p: int) -> int
    decreases s.len() - p,
{
    match desc_end(s, p) {
        Some(q) => if p < q <= s.len() {
            params_end(s, q)
        } else {
            p
        },
        None => p,
    }
}

/// Where the method descriptor that starts at `p` ends, if one does.
pub open spec fn method_end(s: Seq<u8>, p: int) -> Option<int> {
    if 0 <= p < s.len() && s[p] == OPEN_PAREN {
        let k = params_end(s, p + 1);
        if 0 <= k < s.len() && s[k] == CLOSE_PAREN {
            if k + 1 < s.len() && s[k + 1] == CODE_VOID {
                Some(k + 2)
            } else {
                desc_end(s, k + 1)
            }
        } else {
            None
        }
    } else {
        None
    }
}

/// The descriptor texts of `ts`, one after another.
pub open spec fn encode_all(ts: Seq<TypeDescriptor>) -> Seq<u8>
    decreases ts.len(),
{
    if ts.len() == 0 {
        seq![]
    } else {
        encode_all(ts.drop_last()) + encode(ts.last())
    }
}

/// The descriptor text of a method.
pub open spec fn encode_method(m: MethodDescriptor) -> Seq<u8> {
    seq![OPEN_PAREN] + encode_all(m.param_tys@) + seq![CLOSE_PAREN] + match m.return_ty {
        None => seq![CODE_VOID],
        Some(t) => encode(t),
    }
}

pub open spec fn canonical_method(m: MethodDescriptor) -> bool {
    &&& forall|i: int| 0 <= i < m.param_tys@.len() ==> canonical(#[trigger] m.param_tys@[i])
    &&& m.return_ty matches Some(t) ==> canonical(t)
}

impl MethodDescriptor {
    /// The parameter types, in order.
    pub fn parameter_types(&self) -> (r: &[TypeDescriptor])
        ensures
            r@ == self.param_tys@,
    {
        self.param_tys.as_slice()
    }

    /// The return type; `None` for `void`.
    pub fn return_type(&self) -> (r: Option<&TypeDescriptor>)
        ensures
            r == match self.return_ty {
                Some(t) => Some(&t),
                None => None::<&TypeDescriptor>,
            },
    {
        match &self.return_ty {
            Some(t) => Some(t),
            None => None,
        }
    }

    /// Parses the method descriptor that starts at `p` in `s`; returns it
    /// with the position just after it.
    pub fn parse(s: &[u8], p: usize) -> (r: Result<(MethodDescriptor, usize), Error>)
        ensures
            match r {
                Ok((m, q)) => {
                    &&& method_end(s@, p as int) == Some(q as int)
                    &&& p < q <= s@.len()
                    &&& encode_method(m) == s@.subrange(p as int, q as int)
                    &&& canonical_method(m)
                },
                Err(e) => method_end(s@, p as int) is None && e == text_error(),
            },
    {
        if p >= s.len() || s[p] != OPEN_PAREN {
            return Err(Error::TextError);
        }
        let mut param_tys: Vec<TypeDescriptor> = Vec::new();
        let mut pos = p + 1;
        loop
            invariant
                p < pos <= s@.len(),
                params_end(s@, p + 1) == params_end(s@, pos as int),
                encode_all(param_tys@) == s@.subrange(p + 1, pos as int),
                forall|i: int| 0 <= i < param_tys@.len() ==> canonical(#[trigger] param_tys@[i]),
            ensures
                p < pos <= s@.len(),
                params_end(s@, p + 1) == pos,
                encode_all(param_tys@) == s@.subrange(p + 1, pos as int),
                forall|i: int| 0 <= i < param_tys@.len() ==> canonical(#[trigger] param_tys@[i]),
            decreases s.len() - pos,
        {
            match TypeDescriptor::parse(s, pos) {
                Ok((t, q)) => {
                    let ghost before = param_tys@;
                    param_tys.push(t);
                    proof {
                        assert(param_tys@.drop_last() =~= before);
                        assert(s@.subrange(p + 1, q as int) =~= s@.subrange(p + 1, pos as int) + s@.subrange(pos as int, q as int));
                    }
                    pos = q;
                },
                Err(_) => {
                    break;
                },
            }
        }
        if pos >= s.len() || s[pos] != CLOSE_PAREN {
            return Err(Error::TextError);
        }
        let (return_ty, q) = if pos + 1 < s.len() && s[pos + 1] == CODE_VOID {
            assert(s@.subrange(pos + 1, pos + 2) =~= seq![CODE_VOID]);
            (None, pos + 2)
        } else {
            let (t, q) = TypeDescriptor::parse(s, pos + 1)?;
            (Some(t), q)
        };
        let m = MethodDescriptor { param_tys, return_ty };
        proof {
            assert(s@.subrange(p as int, q as int) =~= seq![OPEN_PAREN] + s@.subrange(p + 1, pos as int)
                + seq![CLOSE_PAREN] + s@.subrange(pos + 1, q as int));
        }
        Ok((m, q))
    }

    /// Parses `s` as one method descriptor with nothing after it.
    pub fn from_bytes(s: &[u8]) -> (r: Result<MethodDescriptor, Error>)
        ensures
            match r {
                Ok(m) => method_end(s@, 0) == Some(s@.len() as int) && encode_method(m) == s@
                    && canonical_method(m),
                Err(e) => method_end(s@, 0) != Some(s@.len() as int) && e == text_error(),
            },
    {
        let (m, q) = MethodDescriptor::parse(s, 0)?;
        if q != s.len() {
            return Err(Error::TextError);
        }
        assert(s@.subrange(0, q as int) =~= s@);
        Ok(m)
    }
}

} // verus!
