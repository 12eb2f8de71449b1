//! The generic signature grammar: type parameters, parameterized class
//! types, type variables, and class, method and field signatures.
use vstd::prelude::*;

use crate::descriptor::{is_primitive_code, java_lang_class, java_lang_string, SEMICOLON};
use crate::error::Error;

verus! {

pub const LESS: u8 = 60;
pub const GREATER: u8 = 62;
pub const SLASH: u8 = 47;
pub const DOT: u8 = 46;
pub const COLON: u8 = 58;
pub const PLUS: u8 = 43;
pub const MINUS: u8 = 45;
pub const STAR: u8 = 42;
pub const CARET: u8 = 94;
pub const CODE_TYPE_VAR: u8 = 84;

/// A primitive type.
#[derive(Clone, Copy, Debug, PartialEq, Eq, Structural)]
pub enum BaseType {
    Byte,
    Char,
    Double,
    Float,
    Int,
    Long,
    Short,
    Boolean,
}

/// Any type a signature can name.
#[derive(Debug)]
pub enum JavaType {
    Base(BaseType),
    Reference(ReferenceType),
}

/// A reference type.
#[derive(Debug)]
pub enum ReferenceType {
    JavaString,
    JavaClass,
    ClassType(ClassType),
    TypeVariable(Vec<u8>),
    ArrayType(Box<JavaType>),
}

/// A type argument: exact, `+` (extends), `-` (super), or the wildcard `*`.
#[derive(Debug)]
pub enum TypeArgument {
    Invariant(ReferenceType),
    Plus(ReferenceType),
    Minus(ReferenceType),
    Star,
}

/// One segment of a class type: a name and its type arguments.
#[derive(Debug)]
pub struct SimpleClassType {
    pub name: Vec<u8>,
    pub type_arguments: Vec<TypeArgument>,
}

/// A class type: package segments, the outermost class, and nested classes.
#[derive(Debug)]
pub struct ClassType {
    pub package: Vec<Vec<u8>>,
    pub base: SimpleClassType,
    pub sub: Vec<SimpleClassType>,
}

/// A type parameter with its bounds.
#[derive(Debug)]
pub struct TypeParameter {
    pub name: Vec<u8>,
    pub class_bound: Option<ReferenceType>,
    pub interface_bounds: Vec<ReferenceType>,
}

/// The Signature of a class.
#[derive(Debug)]
pub struct ClassSignature {
    pub type_parameters: Vec<TypeParameter>,
    pub superclass_signature: ClassType,
    pub superinterface_signatures: Vec<ClassType>,
}

/// One entry of a method signature's throws clause.
#[derive(Debug)]
pub enum ThrowsSignature {
    ClassType(ClassType),
    TypeVariable(Vec<u8>),
}

/// The Signature of a method.
#[derive(Debug)]
pub struct MethodSignature {
    pub type_parameters: Vec<TypeParameter>,
    pub parameters: Vec<JavaType>,
    pub result: Option<JavaType>,
    pub throws: Vec<ThrowsSignature>,
}

pub open spec fn is_ident_byte(c: u8) -> bool {
    (48 <= c <= 57) || (65 <= c <= 90) || (97 <= c <= 122) || c == 95
}

pub open spec fn at(s: Seq<u8>, p: int, c: u8) -> bool {
    0 <= p < s.len() && s[p] == c
}

/// The end of the run of identifier bytes from `p`.
pub open spec fn ident_run(s: Seq<u8>, p: int) -> int
    decreases s.len() - p,
{
    if 0 <= p < s.len() && is_ident_byte(s[p]) {
        ident_run(s, p + 1)
    } else {
        p
    }
}

/// The end of the identifier at `p` (at least one byte).
pub open spec fn ident_end(s: Seq<u8>, p: int) -> Option<int> {
    if ident_run(s, p) > p { Some(ident_run(s, p)) } else { None }
}

/// Whether `s` holds `lit` at `p`.
pub open spec fn has_at(s: Seq<u8>, p: int, lit: Seq<u8>) -> bool {
    0 <= p && p + lit.len() <= s.len() && s.subrange(p, p + lit.len()) == lit
}

pub open spec fn string_ref() -> Seq<u8> {
    seq![76u8] + java_lang_string() + seq![SEMICOLON]
}

pub open spec fn class_ref() -> Seq<u8> {
    seq![76u8] + java_lang_class() + seq![SEMICOLON]
}

/// Where the greedy run of `ident /` segments from `p` ends.
pub open spec fn package_end(s: Seq<u8>, p: int) -> int
    decreases s.len() - p,
{
    match ident_end(s, p) {
        Some(k) => if at(s, k, SLASH) && p < k { package_end(s, k + 1) } else { p },
        None => p,
    }
}

/// The `ident /` segments from `p` on, without their slashes.
pub open spec fn package_segments(s: Seq<u8>, p: int) -> Seq<Seq<u8>>
    decreases s.len() - p,
{
    match ident_end(s, p) {
        Some(k) => if at(s, k, SLASH) && p < k { seq![s.subrange(p, k)] + package_segments(s, k + 1) } else { seq![] },
        None => seq![],
    }
}

pub open spec fn segments_view(v: Seq<Vec<u8>>) -> Seq<Seq<u8>> {
    v.map_values(|x: Vec<u8>| x@)
}

/// Recognizers for the signature grammar: each gives where the construct
/// that starts at `p` ends, or `None` where none starts there. The second
/// measure orders the constructs tried at one position.
pub open spec fn ref_end(s: Seq<u8>, p: int) -> Option<int>
    decreases s.len() - p, 3int,
{
    if p < 0 || p >= s.len() {
        None
    } else if has_at(s, p, string_ref()) {
        Some(p + string_ref().len())
    } else if has_at(s, p, class_ref()) {
        Some(p + class_ref().len())
    } else if class_type_end(s, p) is Some {
        class_type_end(s, p)
    } else if s[p] == CODE_TYPE_VAR {
        match ident_end(s, p + 1) {
            Some(k) => if at(s, k, SEMICOLON) { Some(k + 1) } else { None },
            None => None,
        }
    } else if s[p] == 91u8 {
        java_end(s, p + 1)
    } else {
        None
    }
}

pub open spec fn java_end(s: Seq<u8>, p: int) -> Option<int>
    decreases s.len() - p, 4int,
{
    if p < 0 || p >= s.len() {
        None
    } else if ref_end(s, p) is Some {
        ref_end(s, p)
    } else if is_primitive_code(s[p]) {
        Some(p + 1)
    } else {
        None
    }
}

pub open spec fn class_type_end(s: Seq<u8>, p: int) -> Option<int>
    decreases s.len() - p, 2int,
{
    if !at(s, p, 76u8) {
        None
    } else {
        let k = package_end(s, p + 1);
        if k <= p || k > s.len() {
            None
        } else {
            match simple_end(s, k) {
                None => None,
                Some(m) => if m <= p || m > s.len() {
                    None
                } else {
                    let e = subs_end(s, m);
                    if e >= m && at(s, e, SEMICOLON) { Some(e + 1) } else { None }
                },
            }
        }
    }
}

pub open spec fn simple_end(s: Seq<u8>, p: int) -> Option<int>
    decreases s.len() - p, 1int,
{
    match ident_end(s, p) {
        None => None,
        Some(k) => if k > p && at(s, k, LESS) {
            match args_end(s, k + 1) {
                Some(m) => if m > k && at(s, m, GREATER) { Some(m + 1) } else { Some(k) },
                None => Some(k),
            }
        } else {
            Some(k)
        },
    }
}

/// Where the greedy run of `. simple` segments from `p` ends.
pub open spec fn subs_end(s: Seq<u8>, p: int) -> int
    decreases s.len() - p, 0int,
{
    if at(s, p, DOT) {
        match simple_end(s, p + 1) {
            Some(k) => if p < k <= s.len() { subs_end(s, k) } else { p },
            None => p,
        }
    } else {
        p
    }
}

pub open spec fn arg_end(s: Seq<u8>, p: int) -> Option<int>
    decreases s.len() - p, 4int,
{
    if at(s, p, PLUS) || at(s, p, MINUS) {
        ref_end(s, p + 1)
    } else if at(s, p, STAR) {
        Some(p + 1)
    } else {
        ref_end(s, p)
    }
}

/// Where the greedy run of type arguments from `p` ends (at least one).
pub open spec fn args_end(s: Seq<u8>, p: int) -> Option<int>
    decreases s.len() - p, 5int,
{
    match arg_end(s, p) {
        None => None,
        Some(q) => if p < q <= s.len() {
            match args_end(s, q) {
                Some(r) => Some(r),
                None => Some(q),
            }
        } else {
            None
        },
    }
}

/// The code letter of a primitive type.
pub open spec fn base_code(b: BaseType) -> u8 {
    match b {
        BaseType::Byte => 66,
        BaseType::Char => 67,
        BaseType::Double => 68,
        BaseType::Float => 70,
        BaseType::Int => 73,
        BaseType::Long => 74,
        BaseType::Short => 83,
        BaseType::Boolean => 90,
    }
}

/// The signature text of a reference type.
pub open spec fn enc_ref(t: ReferenceType) -> Seq<u8>
    decreases t, 0int,
{
    match t {
        ReferenceType::JavaString => string_ref(),
        ReferenceType::JavaClass => class_ref(),
        ReferenceType::ClassType(c) => enc_class_type(c),
        ReferenceType::TypeVariable(n) => seq![CODE_TYPE_VAR] + n@ + seq![SEMICOLON],
        ReferenceType::ArrayType(e) => seq![91u8] + enc_java(*e),
    }
}

/// The signature text of a type.
pub open spec fn enc_java(t: JavaType) -> Seq<u8>
    decreases t, 0int,
{
    match t {
        JavaType::Base(b) => seq![base_code(b)],
        JavaType::Reference(r) => enc_ref(r),
    }
}

/// The signature text of a class type.
pub open spec fn enc_class_type(c: ClassType) -> Seq<u8>
    decreases c, 1int,
{
    seq![76u8] + enc_package(segments_view(c.package@)) + enc_simple(c.base) + enc_subs(c.sub@)
        + seq![SEMICOLON]
}

/// `seg /` for each package segment.
pub open spec fn enc_package(xs: Seq<Seq<u8>>) -> Seq<u8>
    decreases xs.len(),
{
    if xs.len() == 0 {
        seq![]
    } else {
        enc_package(xs.drop_last()) + xs.last() + seq![SLASH]
    }
}

/// `. segment` for each nested class segment.
pub open spec fn enc_subs(xs: Seq<SimpleClassType>) -> Seq<u8>
    decreases xs, 0int,
{
    if xs.len() == 0 {
        seq![]
    } else {
        enc_subs(xs.drop_last()) + seq![DOT] + enc_simple(xs.last())
    }
}

/// The signature text of a class type segment.
pub open spec fn enc_simple(t: SimpleClassType) -> Seq<u8>
    decreases t, 1int,
{
    t.name@ + if t.type_arguments@.len() == 0 {
        seq![]
    } else {
        seq![LESS] + enc_args(t.type_arguments@) + seq![GREATER]
    }
}

/// Type arguments, one after another.
pub open spec fn enc_args(xs: Seq<TypeArgument>) -> Seq<u8>
    decreases xs, 0int,
{
    if xs.len() == 0 {
        seq![]
    } else {
        enc_args(xs.drop_last()) + enc_arg(xs.last())
    }
}

/// The signature text of a type argument.
pub open spec fn enc_arg(a: TypeArgument) -> Seq<u8>
    decreases a, 0int,
{
    match a {
        TypeArgument::Plus(r) => seq![PLUS] + enc_ref(r),
        TypeArgument::Minus(r) => seq![MINUS] + enc_ref(r),
        TypeArgument::Star => seq![STAR],
        TypeArgument::Invariant(r) => enc_ref(r),
    }
}

/// `: bound` for each interface bound.
pub open spec fn enc_bounds(xs: Seq<ReferenceType>) -> Seq<u8>
    decreases xs.len(),
{
    if xs.len() == 0 {
        seq![]
    } else {
        enc_bounds(xs.drop_last()) + seq![COLON] + enc_ref(xs.last())
    }
}

/// The signature text of a type parameter.
pub open spec fn enc_type_param(t: TypeParameter) -> Seq<u8> {
    t.name@ + seq![COLON] + enc_bound(t.class_bound) + enc_bounds(t.interface_bounds@)
}

/// The text of an optional class bound.
pub open spec fn enc_bound(b: Option<ReferenceType>) -> Seq<u8> {
    match b {
        Some(r) => enc_ref(r),
        None => seq![],
    }
}

/// Type parameters, one after another.
pub open spec fn enc_type_params(xs: Seq<TypeParameter>) -> Seq<u8>
    decreases xs.len(),
{
    if xs.len() == 0 {
        seq![]
    } else {
        enc_type_params(xs.drop_last()) + enc_type_param(xs.last())
    }
}

/// A `< ... >` type parameter block, or nothing where there are none.
pub open spec fn enc_tparams_block(xs: Seq<TypeParameter>) -> Seq<u8> {
    if xs.len() == 0 {
        seq![]
    } else {
        seq![LESS] + enc_type_params(xs) + seq![GREATER]
    }
}

/// Class types, one after another.
pub open spec fn enc_class_types(xs: Seq<ClassType>) -> Seq<u8>
    decreases xs.len(),
{
    if xs.len() == 0 {
        seq![]
    } else {
        enc_class_types(xs.drop_last()) + enc_class_type(xs.last())
    }
}

/// Types, one after another.
pub open spec fn enc_javas(xs: Seq<JavaType>) -> Seq<u8>
    decreases xs.len(),
{
    if xs.len() == 0 {
        seq![]
    } else {
        enc_javas(xs.drop_last()) + enc_java(xs.last())
    }
}

/// The signature text of a throws entry.
pub open spec fn enc_throw(t: ThrowsSignature) -> Seq<u8> {
    match t {
        ThrowsSignature::ClassType(c) => seq![CARET] + enc_class_type(c),
        ThrowsSignature::TypeVariable(n) => seq![CARET, CODE_TYPE_VAR] + n@ + seq![SEMICOLON],
    }
}

/// Throws entries, one after another.
pub open spec fn enc_throws(xs: Seq<ThrowsSignature>) -> Seq<u8>
    decreases xs.len(),
{
    if xs.len() == 0 {
        seq![]
    } else {
        enc_throws(xs.drop_last()) + enc_throw(xs.last())
    }
}

/// The signature text of a class signature.
pub open spec fn enc_class_sig(t: ClassSignature) -> Seq<u8> {
    enc_tparams_block(t.type_parameters@) + enc_class_type(t.superclass_signature) + enc_class_types(t.superinterface_signatures@)
}

/// The signature text of a method signature.
pub open spec fn enc_method_sig(t: MethodSignature) -> Seq<u8> {
    enc_tparams_block(t.type_parameters@) + seq![crate::descriptor::OPEN_PAREN] + enc_javas(t.parameters@) + seq![
        crate::descriptor::CLOSE_PAREN,
    ] + enc_result(t.result) + enc_throws(t.throws@)
}

/// The text of a method's result type: `V` for none.
pub open spec fn enc_result(r: Option<JavaType>) -> Seq<u8> {
    match r {
        None => seq![crate::descriptor::CODE_VOID],
        Some(j) => enc_java(j),
    }
}

/// The primitive type a code letter names.
pub open spec fn base_of(c: u8) -> BaseType {
    if c == 66 {
        BaseType::Byte
    } else if c == 67 {
        BaseType::Char
    } else if c == 68 {
        BaseType::Double
    } else if c == 70 {
        BaseType::Float
    } else if c == 73 {
        BaseType::Int
    } else if c == 74 {
        BaseType::Long
    } else if c == 83 {
        BaseType::Short
    } else {
        BaseType::Boolean
    }
}

/// Which alternative of the reference type grammar `t` came from, and the
/// name it copied, for a reference type read from `s[p..q]`.
pub open spec fn ref_shape(t: ReferenceType, s: Seq<u8>, p: int, q: int) -> bool {
    match t {
        ReferenceType::JavaString => has_at(s, p, string_ref()),
        ReferenceType::JavaClass => !has_at(s, p, string_ref()) && has_at(s, p, class_ref()),
        ReferenceType::ClassType(c) => !has_at(s, p, string_ref()) && !has_at(s, p, class_ref()) && class_type_end(s, p)
            == Some(q),
        ReferenceType::TypeVariable(n) => class_type_end(s, p) is None && s[p] == CODE_TYPE_VAR && n@ == s.subrange(
            p + 1,
            q - 1,
        ),
        ReferenceType::ArrayType(_) => class_type_end(s, p) is None && s[p] == 91u8,
    }
}

/// Which alternative of the type grammar `t` came from.
pub open spec fn java_shape(t: JavaType, s: Seq<u8>, p: int) -> bool {
    match t {
        JavaType::Reference(r) => ref_end(s, p) matches Some(q) && ref_shape(r, s, p, q),
        JavaType::Base(b) => ref_end(s, p) is None && is_primitive_code(s[p]) && b == base_of(s[p]),
    }
}

/// Which alternative of the type argument grammar `t` came from.
pub open spec fn arg_shape(t: TypeArgument, s: Seq<u8>, p: int, q: int) -> bool {
    match t {
        TypeArgument::Plus(r) => at(s, p, PLUS) && ref_shape(r, s, p + 1, q),
        TypeArgument::Minus(r) => at(s, p, MINUS) && ref_shape(r, s, p + 1, q),
        TypeArgument::Star => at(s, p, STAR),
        TypeArgument::Invariant(r) => !at(s, p, PLUS) && !at(s, p, MINUS) && !at(s, p, STAR) && ref_shape(r, s, p, q),
    }
}

/// The name a class type segment read from `p` copied, and whether it has
/// type arguments.
pub open spec fn simple_shape(t: SimpleClassType, s: Seq<u8>, p: int, q: int) -> bool {
    &&& ident_end(s, p) matches Some(k) && t.name@ == s.subrange(p, k)
    &&& (t.type_arguments@.len() > 0 <==> Some(q) != ident_end(s, p))
}

fn ident_end_exec(s: &[u8], p: usize) -> (r: Option<usize>)
    ensures
        match r {
            Some(k) => ident_end(s@, p as int) == Some(k as int) && p < k <= s@.len(),
            None => ident_end(s@, p as int) is None,
        },
{
    let mut i = p;
    while i < s.len() && (
    (48 <= s[i] && s[i] <= 57) || (65 <= s[i] && s[i] <= 90) || (97 <= s[i] && s[i] <= 122) || s[i] == 95)
        invariant
            p <= i,
            i <= s@.len() || i == p,
            ident_run(s@, p as int) == ident_run(s@, i as int),
        decreases s.len() - i,
    {
        i = i + 1;
    }
    if i > p {
        Some(i)
    } else {
        None
    }
}

fn has_at_exec(s: &[u8], p: usize, lit: &[u8]) -> (r: bool)
    ensures
        r == has_at(s@, p as int, lit@),
{
    if p > s.len() || s.len() - p < lit.len() {
        return false;
    }
    crate::descriptor::bytes_equal(vstd::slice::slice_subrange(s, p, p + lit.len()), lit)
}

fn string_ref_bytes() -> (r: Vec<u8>)
    ensures
        r@ == string_ref(),
{
    let r = vec![76u8, 106, 97, 118, 97, 47, 108, 97, 110, 103, 47, 83, 116, 114, 105, 110, 103, 59];
    assert(r@ =~= string_ref());
    r
}

fn class_ref_bytes() -> (r: Vec<u8>)
    ensures
        r@ == class_ref(),
{
    let r = vec![76u8, 106, 97, 118, 97, 47, 108, 97, 110, 103, 47, 67, 108, 97, 115, 115, 59];
    assert(r@ =~= class_ref());
    r
}

fn at_exec(s: &[u8], p: usize, c: u8) -> (r: bool)
    ensures
        r == at(s@, p as int, c),
        s@.len() <= usize::MAX,
{
    p < s.len() && s[p] == c
}

impl ReferenceType {
    /// Parses the reference type signature that starts at `p`.
    pub fn parse(s: &[u8], p: usize) -> (r: Result<(ReferenceType, usize), Error>)
        ensures
            match r {
                Ok((t, q)) => ref_end(s@, p as int) == Some(q as int) && p < q <= s@.len() && ref_shape(t, s@, p as int, q as int)
                    && enc_ref(t) == s@.subrange(p as int, q as int),
                Err(e) => ref_end(s@, p as int) is None && e == Error::TextError,
            },
        decreases s.len() - p, 3int,
    {
        if p >= s.len() {
            return Err(Error::TextError);
        }
        let sr = string_ref_bytes();
        if has_at_exec(s, p, sr.as_slice()) {
            return Ok((ReferenceType::JavaString, p + sr.len()));
        }
        let cr = class_ref_bytes();
        if has_at_exec(s, p, cr.as_slice()) {
            return Ok((ReferenceType::JavaClass, p + cr.len()));
        }
        if let Ok((c, q)) = ClassType::parse(s, p) {
            return Ok((ReferenceType::ClassType(c), q));
        }
        if s[p] == CODE_TYPE_VAR {
            return match ident_end_exec(s, p + 1) {
                Some(k) => if at_exec(s, k, SEMICOLON) {
                    let name = vstd::slice::slice_to_vec(vstd::slice::slice_subrange(s, p + 1, k));
                    assert(s@.subrange(p as int, k + 1) =~= seq![CODE_TYPE_VAR] + name@ + seq![SEMICOLON]);
                    Ok((ReferenceType::TypeVariable(name), k + 1))
                } else {
                    Err(Error::TextError)
                },
                None => Err(Error::TextError),
            };
        }
        if s[p] == 91u8 {
            let (e, q) = JavaType::parse(s, p + 1)?;
            assert(s@.subrange(p as int, q as int) =~= seq![91u8] + s@.subrange(p + 1, q as int));
            return Ok((ReferenceType::ArrayType(Box::new(e)), q));
        }
        Err(Error::TextError)
    }
}

impl JavaType {
    /// Parses the type signature that starts at `p`.
    pub fn parse(s: &[u8], p: usize) -> (r: Result<(JavaType, usize), Error>)
        ensures
            match r {
                Ok((t, q)) => java_end(s@, p as int) == Some(q as int) && p < q <= s@.len() && java_shape(t, s@, p as int)
                    && enc_java(t) == s@.subrange(p as int, q as int),
                Err(e) => java_end(s@, p as int) is None && e == Error::TextError,
            },
        decreases s.len() - p, 4int,
    {
        if p >= s.len() {
            return Err(Error::TextError);
        }
        if let Ok((t, q)) = ReferenceType::parse(s, p) {
            return Ok((JavaType::Reference(t), q));
        }
        let c = s[p];
        let b = if c == 66 {
            BaseType::Byte
        } else if c == 67 {
            BaseType::Char
        } else if c == 68 {
            BaseType::Double
        } else if c == 70 {
            BaseType::Float
        } else if c == 73 {
            BaseType::Int
        } else if c == 74 {
            BaseType::Long
        } else if c == 83 {
            BaseType::Short
        } else if c == 90 {
            BaseType::Boolean
        } else {
            return Err(Error::TextError);
        };
        assert(s@.subrange(p as int, p + 1) =~= seq![c]);
        Ok((JavaType::Base(b), p + 1))
    }
}

impl ClassType {
    /// Parses the class type signature (`L ... ;`) that starts at `p`.
    pub fn parse(s: &[u8], p: usize) -> (r: Result<(ClassType, usize), Error>)
        ensures
            match r {
                Ok((t, q)) => {
                    &&& class_type_end(s@, p as int) == Some(q as int)
                    &&& p < q <= s@.len()
                    &&& segments_view(t.package@) == package_segments(s@, p + 1)
                    &&& simple_end(s@, package_end(s@, p + 1)) matches Some(m) && simple_shape(t.base, s@, package_end(s@, p + 1), m)
                    &&& enc_class_type(t) == s@.subrange(p as int, q as int)
                },
                Err(e) => class_type_end(s@, p as int) is None && e == Error::TextError,
            },
        decreases s.len() - p, 2int,
    {
        if !at_exec(s, p, 76u8) {
            return Err(Error::TextError);
        }
        let mut package: Vec<Vec<u8>> = Vec::new();
        let mut k = p + 1;
        assert(segments_view(package@) =~= Seq::<Seq<u8>>::empty());
        assert(enc_package(Seq::<Seq<u8>>::empty()) =~= Seq::<u8>::empty());
        loop
            invariant
                p < k <= s@.len(),
                package_end(s@, p + 1) == package_end(s@, k as int),
                package_segments(s@, p + 1) == segments_view(package@) + package_segments(s@, k as int),
                enc_package(segments_view(package@)) == s@.subrange(p + 1, k as int),
            ensures
                enc_package(segments_view(package@)) == s@.subrange(p + 1, k as int),
                p < k <= s@.len(),
                package_end(s@, p + 1) == k,
                package_segments(s@, p + 1) == segments_view(package@),
            decreases s.len() - k,
        {
            match ident_end_exec(s, k) {
                Some(e) => {
                    if at_exec(s, e, SLASH) {
                        let ghost before = segments_view(package@);
                        package.push(vstd::slice::slice_to_vec(vstd::slice::slice_subrange(s, k, e)));
                        proof {
                            assert(segments_view(package@) =~= before.push(s@.subrange(k as int, e as int)));
                            assert(before + package_segments(s@, k as int) =~= segments_view(package@) + package_segments(s@, e + 1));
                            assert(segments_view(package@).drop_last() =~= before);
                            assert(s@.subrange(p + 1, e + 1) =~= s@.subrange(p + 1, k as int) + s@.subrange(k as int, e as int) + seq![SLASH]);
                        }
                        k = e + 1;
                    } else {
                        assert(segments_view(package@) + seq![] =~= segments_view(package@));
                        break;
                    }
                },
                None => {
                    assert(segments_view(package@) + seq![] =~= segments_view(package@));
                    break;
                },
            }
        }
        let (base, m) = SimpleClassType::parse(s, k)?;
        let mut sub: Vec<SimpleClassType> = Vec::new();
        let mut e = m;
        assert(enc_subs(sub@) =~= Seq::<u8>::empty());
        loop
            invariant
                p < m <= e <= s@.len(),
                subs_end(s@, m as int) == subs_end(s@, e as int),
                enc_subs(sub@) == s@.subrange(m as int, e as int),
            ensures
                enc_subs(sub@) == s@.subrange(m as int, e as int),
                p < m <= e <= s@.len(),
                subs_end(s@, m as int) == e,
            decreases s.len() - e,
        {
            if !at_exec(s, e, DOT) {
                break;
            }
            match SimpleClassType::parse(s, e + 1) {
                Ok((t, q)) => {
                    let ghost before = sub@;
                    let ghost tt = t;
                    sub.push(t);
                    proof {
                        assert(sub@.drop_last() =~= before);
                        assert(s@.subrange(m as int, q as int) =~= s@.subrange(m as int, e as int) + seq![DOT] + s@.subrange(e + 1, q as int));
                    }
                    e = q;
                },
                Err(_) => {
                    break;
                },
            }
        }
        if !at_exec(s, e, SEMICOLON) {
            return Err(Error::TextError);
        }
        let t = ClassType { package, base, sub };
        assert(s@.subrange(p as int, e + 1) =~= seq![76u8] + s@.subrange(p + 1, k as int) + s@.subrange(k as int, m as int)
            + s@.subrange(m as int, e as int) + seq![SEMICOLON]);
        Ok((t, e + 1))
    }
}

impl SimpleClassType {
    /// Parses a class name segment with its optional type arguments.
    pub fn parse(s: &[u8], p: usize) -> (r: Result<(SimpleClassType, usize), Error>)
        ensures
            match r {
                Ok((t, q)) => simple_end(s@, p as int) == Some(q as int) && p < q <= s@.len() && simple_shape(t, s@, p as int, q as int)
                    && enc_simple(t) == s@.subrange(p as int, q as int),
                Err(e) => simple_end(s@, p as int) is None && e == Error::TextError,
            },
        decreases s.len() - p, 1int,
    {
        let k = match ident_end_exec(s, p) {
            Some(k) => k,
            None => {
                return Err(Error::TextError);
            },
        };
        let name = vstd::slice::slice_to_vec(vstd::slice::slice_subrange(s, p, k));
        if at_exec(s, k, LESS) {
            if let Ok((args, m)) = parse_type_arguments(s, k + 1) {
                if at_exec(s, m, GREATER) {
                    assert(s@.subrange(p as int, m + 1) =~= name@ + (seq![LESS] + s@.subrange(k + 1, m as int) + seq![GREATER]));
                    return Ok((SimpleClassType { name, type_arguments: args }, m + 1));
                }
            }
        }
        let t = SimpleClassType { name, type_arguments: Vec::new() };
        assert(enc_simple(t) =~= t.name@);
        Ok((t, k))
    }
}

impl TypeArgument {
    /// Parses the type argument that starts at `p`.
    pub fn parse(s: &[u8], p: usize) -> (r: Result<(TypeArgument, usize), Error>)
        ensures
            match r {
                Ok((t, q)) => arg_end(s@, p as int) == Some(q as int) && p < q <= s@.len() && arg_shape(t, s@, p as int, q as int)
                    && enc_arg(t) == s@.subrange(p as int, q as int),
                Err(e) => arg_end(s@, p as int) is None && e == Error::TextError,
            },
        decreases s.len() - p, 4int,
    {
        if at_exec(s, p, PLUS) {
            let (t, q) = ReferenceType::parse(s, p + 1)?;
            assert(s@.subrange(p as int, q as int) =~= seq![PLUS] + s@.subrange(p + 1, q as int));
            Ok((TypeArgument::Plus(t), q))
        } else if at_exec(s, p, MINUS) {
            let (t, q) = ReferenceType::parse(s, p + 1)?;
            assert(s@.subrange(p as int, q as int) =~= seq![MINUS] + s@.subrange(p + 1, q as int));
            Ok((TypeArgument::Minus(t), q))
        } else if at_exec(s, p, STAR) {
            assert(s@.subrange(p as int, p + 1) =~= seq![STAR]);
            Ok((TypeArgument::Star, p + 1))
        } else {
            let (t, q) = ReferenceType::parse(s, p)?;
            Ok((TypeArgument::Invariant(t), q))
        }
    }
}

proof fn lemma_args_prepend(a: TypeArgument, xs: Seq<TypeArgument>)
    ensures
        enc_args(seq![a] + xs) == enc_arg(a) + enc_args(xs),
    decreases xs.len(),
{
    if xs.len() == 0 {
        assert((seq![a] + xs).drop_last() =~= Seq::<TypeArgument>::empty());
        assert(enc_args(Seq::<TypeArgument>::empty()) =~= Seq::<u8>::empty());
        assert(enc_args(xs) =~= Seq::<u8>::empty());
        assert(enc_args(seq![a] + xs) =~= enc_arg(a) + enc_args(xs));
    } else {
        lemma_args_prepend(a, xs.drop_last());
        assert((seq![a] + xs).drop_last() =~= seq![a] + xs.drop_last());
        assert((seq![a] + xs).last() == xs.last());
        assert(enc_args(seq![a] + xs) =~= enc_arg(a) + enc_args(xs));
    }
}

/// Parses one or more type arguments from `p` on, greedily.
fn parse_type_arguments(s: &[u8], p: usize) -> (r: Result<(Vec<TypeArgument>, usize), Error>)
    ensures
        match r {
            Ok((v, q)) => args_end(s@, p as int) == Some(q as int) && p < q <= s@.len() && v@.len() > 0
                && enc_args(v@) == s@.subrange(p as int, q as int),
            Err(e) => args_end(s@, p as int) is None,
        },
    decreases s.len() - p, 5int,
{
    let (first, q) = TypeArgument::parse(s, p)?;
    let ghost a = first;
    let mut args: Vec<TypeArgument> = Vec::new();
    args.push(first);
    proof {
        assert(args@.drop_last() =~= Seq::<TypeArgument>::empty());
        assert(enc_args(Seq::<TypeArgument>::empty()) =~= Seq::<u8>::empty());
        assert(enc_args(args@) =~= enc_arg(a));
    }
    match parse_type_arguments(s, q) {
        Ok((rest, r)) => {
            let mut rest = rest;
            let ghost rv = rest@;
            args.append(&mut rest);
            proof {
                lemma_args_prepend(a, rv);
                assert(args@ =~= seq![a] + rv);
                assert(s@.subrange(p as int, r as int) =~= s@.subrange(p as int, q as int) + s@.subrange(q as int, r as int));
            }
            Ok((args, r))
        },
        Err(_) => Ok((args, q)),
    }
}

/// Where the greedy run of `: reference` bounds from `p` ends.
pub open spec fn bounds_end(s: Seq<u8>, p: int) -> int
    decreases s.len() - p,
{
    if at(s, p, COLON) {
        match ref_end(s, p + 1) {
            Some(q) => if p < q <= s.len() { bounds_end(s, q) } else { p },
            None => p,
        }
    } else {
        p
    }
}

pub open spec fn type_param_end(s: Seq<u8>, p: int) -> Option<int> {
    match ident_end(s, p) {
        None => None,
        Some(k) => if !at(s, k, COLON) {
            None
        } else {
            let c = match ref_end(s, k + 1) {
                Some(q) => q,
                None => k + 1,
            };
            Some(bounds_end(s, c))
        },
    }
}

/// Where the greedy run of type parameters from `p` ends (at least one).
pub open spec fn type_params_end(s: Seq<u8>, p: int) -> Option<int>
    decreases s.len() - p,
{
    match type_param_end(s, p) {
        None => None,
        Some(q) => if p < q <= s.len() {
            match type_params_end(s, q) {
                Some(r) => Some(r),
                None => Some(q),
            }
        } else {
            None
        },
    }
}

/// Where an optional `< type parameters >` block from `p` ends.
pub open spec fn tparams_opt_end(s: Seq<u8>, p: int) -> int {
    if at(s, p, LESS) {
        match type_params_end(s, p + 1) {
            Some(m) => if at(s, m, GREATER) { m + 1 } else { p },
            None => p,
        }
    } else {
        p
    }
}

/// Where the greedy run of class types from `p` ends.
pub open spec fn class_types_end(s: Seq<u8>, p: int) -> int
    decreases s.len() - p,
{
    match class_type_end(s, p) {
        Some(q) => if p < q <= s.len() { class_types_end(s, q) } else { p },
        None => p,
    }
}

/// Where the class signature that starts at `p` ends.
pub open spec fn class_sig_end(s: Seq<u8>, p: int) -> Option<int> {
    match class_type_end(s, tparams_opt_end(s, p)) {
        Some(q) => Some(class_types_end(s, q)),
        None => None,
    }
}

/// Where the greedy run of type signatures from `p` ends.
pub open spec fn java_types_end(s: Seq<u8>, p: int) -> int
    decreases s.len() - p,
{
    match java_end(s, p) {
        Some(q) => if p < q <= s.len() { java_types_end(s, q) } else { p },
        None => p,
    }
}

pub open spec fn throw_end(s: Seq<u8>, p: int) -> Option<int> {
    if !at(s, p, CARET) {
        None
    } else if class_type_end(s, p + 1) is Some {
        class_type_end(s, p + 1)
    } else if at(s, p + 1, CODE_TYPE_VAR) {
        match ident_end(s, p + 2) {
            Some(k) => if at(s, k, SEMICOLON) { Some(k + 1) } else { None },
            None => None,
        }
    } else {
        None
    }
}

/// Where the greedy run of `^` throws entries from `p` ends.
pub open spec fn throws_end(s: Seq<u8>, p: int) -> int
    decreases s.len() - p,
{
    match throw_end(s, p) {
        Some(q) => if p < q <= s.len() { throws_end(s, q) } else { p },
        None => p,
    }
}

/// Where the method signature that starts at `p` ends.
pub open spec fn method_sig_end(s: Seq<u8>, p: int) -> Option<int> {
    let t = tparams_opt_end(s, p);
    if !at(s, t, crate::descriptor::OPEN_PAREN) {
        None
    } else {
        let k = java_types_end(s, t + 1);
        if !at(s, k, crate::descriptor::CLOSE_PAREN) {
            None
        } else {
            let r = if at(s, k + 1, crate::descriptor::CODE_VOID) { Some(k + 2) } else { java_end(s, k + 1) };
            match r {
                Some(q) => Some(throws_end(s, q)),
                None => None,
            }
        }
    }
}

impl TypeParameter {
    /// Parses the type parameter that starts at `p`.
    pub fn parse(s: &[u8], p: usize) -> (r: Result<(TypeParameter, usize), Error>)
        ensures
            match r {
                Ok((t, q)) => type_param_end(s@, p as int) == Some(q as int) && p < q <= s@.len() && (ident_end(s@, p as int) matches Some(k) && t.name@ == s@.subrange(p as int, k) && (t.class_bound is Some <==> ref_end(s@, k + 1) is Some))
                    && enc_type_param(t) == s@.subrange(p as int, q as int),
                Err(e) => type_param_end(s@, p as int) is None && e == Error::TextError,
            },
    {
        let k = match ident_end_exec(s, p) {
            Some(k) => k,
            None => {
                return Err(Error::TextError);
            },
        };
        if !at_exec(s, k, COLON) {
            return Err(Error::TextError);
        }
        let name = vstd::slice::slice_to_vec(vstd::slice::slice_subrange(s, p, k));
        let (class_bound, c) = match ReferenceType::parse(s, k + 1) {
            Ok((t, q)) => (Some(t), q),
            Err(_) => (None, k + 1),
        };
        assert(enc_bound(class_bound) =~= s@.subrange(k + 1, c as int));
        let mut interface_bounds: Vec<ReferenceType> = Vec::new();
        let mut e = c;
        assert(enc_bounds(interface_bounds@) =~= Seq::<u8>::empty());
        loop
            invariant
                p < c <= e <= s@.len(),
                bounds_end(s@, c as int) == bounds_end(s@, e as int),
                enc_bounds(interface_bounds@) == s@.subrange(c as int, e as int),
            ensures
                p < e <= s@.len(),
                bounds_end(s@, c as int) == e,
                enc_bounds(interface_bounds@) == s@.subrange(c as int, e as int),
            decreases s.len() - e,
        {
            if !at_exec(s, e, COLON) {
                break;
            }
            match ReferenceType::parse(s, e + 1) {
                Ok((t, q)) => {
                    let ghost before = interface_bounds@;
                    interface_bounds.push(t);
                    proof {
                        assert(interface_bounds@.drop_last() =~= before);
                        assert(s@.subrange(c as int, q as int) =~= s@.subrange(c as int, e as int) + seq![COLON] + s@.subrange(e + 1, q as int));
                    }
                    e = q;
                },
                Err(_) => {
                    break;
                },
            }
        }
        let t = TypeParameter { name, class_bound, interface_bounds };
        assert(s@.subrange(p as int, e as int) =~= name@ + seq![COLON] + s@.subrange(k + 1, c as int) + s@.subrange(c as int, e as int));
        Ok((t, e))
    }
}

proof fn lemma_type_params_prepend(a: TypeParameter, xs: Seq<TypeParameter>)
    ensures
        enc_type_params(seq![a] + xs) == enc_type_param(a) + enc_type_params(xs),
    decreases xs.len(),
{
    if xs.len() == 0 {
        assert((seq![a] + xs).drop_last() =~= Seq::<TypeParameter>::empty());
        assert(enc_type_params(Seq::<TypeParameter>::empty()) =~= Seq::<u8>::empty());
        assert(enc_type_params(xs) =~= Seq::<u8>::empty());
        assert(enc_type_params(seq![a] + xs) =~= enc_type_param(a) + enc_type_params(xs));
    } else {
        lemma_type_params_prepend(a, xs.drop_last());
        assert((seq![a] + xs).drop_last() =~= seq![a] + xs.drop_last());
        assert((seq![a] + xs).last() == xs.last());
        assert(enc_type_params(seq![a] + xs) =~= enc_type_param(a) + enc_type_params(xs));
    }
}

/// Parses one or more type parameters from `p` on, greedily.
fn parse_type_parameters(s: &[u8], p: usize) -> (r: Result<(Vec<TypeParameter>, usize), Error>)
    ensures
        match r {
            Ok((v, q)) => type_params_end(s@, p as int) == Some(q as int) && p < q <= s@.len() && v@.len() > 0
                && enc_type_params(v@) == s@.subrange(p as int, q as int),
            Err(e) => type_params_end(s@, p as int) is None,
        },
    decreases s.len() - p,
{
    let (first, q) = TypeParameter::parse(s, p)?;
    let ghost a = first;
    let mut params: Vec<TypeParameter> = Vec::new();
    params.push(first);
    proof {
        assert(params@.drop_last() =~= Seq::<TypeParameter>::empty());
        assert(enc_type_params(Seq::<TypeParameter>::empty()) =~= Seq::<u8>::empty());
        assert(enc_type_params(params@) =~= enc_type_param(a));
    }
    match parse_type_parameters(s, q) {
        Ok((rest, r)) => {
            let mut rest = rest;
            let ghost rv = rest@;
            params.append(&mut rest);
            proof {
                lemma_type_params_prepend(a, rv);
                assert(params@ =~= seq![a] + rv);
                assert(s@.subrange(p as int, r as int) =~= s@.subrange(p as int, q as int) + s@.subrange(q as int, r as int));
            }
            Ok((params, r))
        },
        Err(_) => Ok((params, q)),
    }
}

/// Parses an optional `< type parameters >` block at `p`.
fn parse_type_parameters_opt(s: &[u8], p: usize) -> (r: (Vec<TypeParameter>, usize))
    ensures
        r.1 == tparams_opt_end(s@, p as int),
        p <= r.1 <= s@.len() || r.1 == p,
        r.1 > p ==> r.1 <= s@.len(),
        r.0@.len() > 0 <==> r.1 > p,
        p <= r.1,
        r.1 > p ==> enc_tparams_block(r.0@) == s@.subrange(p as int, r.1 as int),
        r.1 == p ==> enc_tparams_block(r.0@) == Seq::<u8>::empty(),
{
    if at_exec(s, p, LESS) {
        if let Ok((params, m)) = parse_type_parameters(s, p + 1) {
            if at_exec(s, m, GREATER) {
                assert(s@.subrange(p as int, m + 1) =~= seq![LESS] + s@.subrange(p + 1, m as int) + seq![GREATER]);
                return (params, m + 1);
            }
        }
    }
    (Vec::new(), p)
}

impl ClassSignature {
    /// Parses the class signature that starts at `p`.
    #[verifier::spinoff_prover]
    #[verifier::rlimit(60)]
    pub fn parse(s: &[u8], p: usize) -> (r: Result<(ClassSignature, usize), Error>)
        ensures
            match r {
                Ok((t, q)) => {
                    &&& class_sig_end(s@, p as int) == Some(q as int)
                    &&& q <= s@.len()
                    &&& (t.type_parameters@.len() > 0 <==> tparams_opt_end(s@, p as int) > p)
                    &&& enc_class_sig(t) == s@.subrange(p as int, q as int)
                },
                Err(e) => class_sig_end(s@, p as int) is None && e == Error::TextError,
            },
    {
        let (type_parameters, t) = parse_type_parameters_opt(s, p);
        let (superclass_signature, q) = ClassType::parse(s, t)?;
        let mut superinterface_signatures: Vec<ClassType> = Vec::new();
        let mut e = q;
        assert(enc_class_types(superinterface_signatures@) =~= Seq::<u8>::empty());
        loop
            invariant
                q <= e <= s@.len(),
                class_types_end(s@, q as int) == class_types_end(s@, e as int),
                enc_class_types(superinterface_signatures@) == s@.subrange(q as int, e as int),
            ensures
                e <= s@.len(),
                class_types_end(s@, q as int) == e,
                enc_class_types(superinterface_signatures@) == s@.subrange(q as int, e as int),
            decreases s.len() - e,
        {
            match ClassType::parse(s, e) {
                Ok((c, q2)) => {
                    let ghost before = superinterface_signatures@;
                    superinterface_signatures.push(c);
                    proof {
                        assert(superinterface_signatures@.drop_last() =~= before);
                        assert(s@.subrange(q as int, q2 as int) =~= s@.subrange(q as int, e as int) + s@.subrange(e as int, q2 as int));
                    }
                    e = q2;
                },
                Err(_) => {
                    break;
                },
            }
        }
        assert(s@.subrange(p as int, e as int) =~= s@.subrange(p as int, t as int) + s@.subrange(t as int, q as int)
            + s@.subrange(q as int, e as int));
        Ok((ClassSignature { type_parameters, superclass_signature, superinterface_signatures }, e))
    }

    /// Parses `s` as one class signature with nothing after it.
    pub fn from_bytes(s: &[u8]) -> (r: Result<ClassSignature, Error>)
        ensures
            r is Ok <==> class_sig_end(s@, 0) == Some(s@.len() as int),
            r matches Ok(t) ==> enc_class_sig(t) == s@,
            r matches Err(e) ==> e == Error::TextError,
    {
        let (t, q) = ClassSignature::parse(s, 0)?;
        if q != s.len() {
            return Err(Error::TextError);
        }
        assert(s@.subrange(0, q as int) =~= s@);
        Ok(t)
    }
}

impl ThrowsSignature {
    /// Parses the `^` throws entry that starts at `p`.
    pub fn parse(s: &[u8], p: usize) -> (r: Result<(ThrowsSignature, usize), Error>)
        ensures
            match r {
                Ok((t, q)) => throw_end(s@, p as int) == Some(q as int) && p < q <= s@.len() && match t {
                    ThrowsSignature::ClassType(_) => class_type_end(s@, p + 1) is Some,
                    ThrowsSignature::TypeVariable(n) => class_type_end(s@, p + 1) is None && n@ == s@.subrange(p + 2, q - 1),
                } && enc_throw(t) == s@.subrange(p as int, q as int),
                Err(e) => throw_end(s@, p as int) is None && e == Error::TextError,
            },
    {
        if !at_exec(s, p, CARET) {
            return Err(Error::TextError);
        }
        if let Ok((c, q)) = ClassType::parse(s, p + 1) {
            assert(s@.subrange(p as int, q as int) =~= seq![CARET] + s@.subrange(p + 1, q as int));
            return Ok((ThrowsSignature::ClassType(c), q));
        }
        if !at_exec(s, p + 1, CODE_TYPE_VAR) {
            return Err(Error::TextError);
        }
        match ident_end_exec(s, p + 2) {
            Some(k) => if at_exec(s, k, SEMICOLON) {
                let name = vstd::slice::slice_to_vec(vstd::slice::slice_subrange(s, p + 2, k));
                assert(s@.subrange(p as int, k + 1) =~= seq![CARET, CODE_TYPE_VAR] + name@ + seq![SEMICOLON]);
                Ok((ThrowsSignature::TypeVariable(name), k + 1))
            } else {
                Err(Error::TextError)
            },
            None => Err(Error::TextError),
        }
    }
}

proof fn lemma_method_sig_text(m: MethodSignature, s: Seq<u8>, p: int, t: int, k: int, q: int, e: int)
    requires
        0 <= p <= t < k < q <= e <= s.len(),
        enc_tparams_block(m.type_parameters@) == s.subrange(p, t),
        s[t] == crate::descriptor::OPEN_PAREN,
        enc_javas(m.parameters@) == s.subrange(t + 1, k),
        s[k] == crate::descriptor::CLOSE_PAREN,
        enc_result(m.result) == s.subrange(k + 1, q),
        enc_throws(m.throws@) == s.subrange(q, e),
    ensures
        enc_method_sig(m) == s.subrange(p, e),
{
    assert(s.subrange(p, e) =~= s.subrange(p, t) + seq![crate::descriptor::OPEN_PAREN] + s.subrange(t + 1, k) + seq![
        crate::descriptor::CLOSE_PAREN,
    ] + s.subrange(k + 1, q) + s.subrange(q, e));
}

impl MethodSignature {
    /// Parses the method signature that starts at `p`.
    #[verifier::spinoff_prover]
    #[verifier::rlimit(100)]
    pub fn parse(s: &[u8], p: usize) -> (r: Result<(MethodSignature, usize), Error>)
        ensures
            match r {
                Ok((t, q)) => {
                    &&& method_sig_end(s@, p as int) == Some(q as int)
                    &&& q <= s@.len()
                    &&& (t.type_parameters@.len() > 0 <==> tparams_opt_end(s@, p as int) > p)
                    &&& (t.result is None <==> at(
                        s@,
                        java_types_end(s@, tparams_opt_end(s@, p as int) + 1) + 1,
                        crate::descriptor::CODE_VOID,
                    ))
                    &&& enc_method_sig(t) == s@.subrange(p as int, q as int)
                },
                Err(e) => method_sig_end(s@, p as int) is None && e == Error::TextError,
            },
    {
        let (type_parameters, t) = parse_type_parameters_opt(s, p);
        if !at_exec(s, t, crate::descriptor::OPEN_PAREN) {
            return Err(Error::TextError);
        }
        let mut parameters: Vec<JavaType> = Vec::new();
        let mut k = t + 1;
        assert(enc_javas(parameters@) =~= Seq::<u8>::empty());
        loop
            invariant
                t + 1 <= k <= s@.len(),
                java_types_end(s@, t + 1) == java_types_end(s@, k as int),
                enc_javas(parameters@) == s@.subrange(t + 1, k as int),
            ensures
                k <= s@.len(),
                java_types_end(s@, t + 1) == k,
                enc_javas(parameters@) == s@.subrange(t + 1, k as int),
            decreases s.len() - k,
        {
            match JavaType::parse(s, k) {
                Ok((j, q)) => {
                    let ghost before = parameters@;
                    parameters.push(j);
                    proof {
                        assert(parameters@.drop_last() =~= before);
                        assert(s@.subrange(t + 1, q as int) =~= s@.subrange(t + 1, k as int) + s@.subrange(k as int, q as int));
                    }
                    k = q;
                },
                Err(_) => {
                    break;
                },
            }
        }
        if !at_exec(s, k, crate::descriptor::CLOSE_PAREN) {
            return Err(Error::TextError);
        }
        let (result, q) = if at_exec(s, k + 1, crate::descriptor::CODE_VOID) {
            assert(s@.subrange(k + 1, k + 2) =~= seq![crate::descriptor::CODE_VOID]);
            (None, k + 2)
        } else {
            let (j, q) = JavaType::parse(s, k + 1)?;
            (Some(j), q)
        };
        assert(enc_result(result) =~= s@.subrange(k + 1, q as int));
        let mut throws: Vec<ThrowsSignature> = Vec::new();
        let mut e = q;
        assert(enc_throws(throws@) =~= Seq::<u8>::empty());
        loop
            invariant
                q <= e <= s@.len(),
                throws_end(s@, q as int) == throws_end(s@, e as int),
                enc_throws(throws@) == s@.subrange(q as int, e as int),
            ensures
                e <= s@.len(),
                throws_end(s@, q as int) == e,
                enc_throws(throws@) == s@.subrange(q as int, e as int),
            decreases s.len() - e,
        {
            match ThrowsSignature::parse(s, e) {
                Ok((th, q2)) => {
                    let ghost before = throws@;
                    throws.push(th);
                    proof {
                        assert(throws@.drop_last() =~= before);
                        assert(s@.subrange(q as int, q2 as int) =~= s@.subrange(q as int, e as int) + s@.subrange(e as int, q2 as int));
                    }
                    e = q2;
                },
                Err(_) => {
                    break;
                },
            }
        }
        let m = MethodSignature { type_parameters, parameters, result, throws };
        proof {
            if t == p {
                assert(s@.subrange(p as int, t as int) =~= Seq::<u8>::empty());
            }
            lemma_method_sig_text(m, s@, p as int, t as int, k as int, q as int, e as int);
        }
        Ok((m, e))
    }

    /// Parses `s` as one method signature with nothing after it.
    pub fn from_bytes(s: &[u8]) -> (r: Result<MethodSignature, Error>)
        ensures
            r is Ok <==> method_sig_end(s@, 0) == Some(s@.len() as int),
            r matches Ok(t) ==> enc_method_sig(t) == s@,
            r matches Err(e) ==> e == Error::TextError,
    {
        let (t, q) = MethodSignature::parse(s, 0)?;
        if q != s.len() {
            return Err(Error::TextError);
        }
        assert(s@.subrange(0, q as int) =~= s@);
        Ok(t)
    }
}

impl ReferenceType {
    /// Parses `s` as one field signature with nothing after it.
    pub fn from_bytes(s: &[u8]) -> (r: Result<ReferenceType, Error>)
        ensures
            r is Ok <==> ref_end(s@, 0) == Some(s@.len() as int),
            r matches Ok(t) ==> ref_shape(t, s@, 0, s@.len() as int) && enc_ref(t) == s@,
            r matches Err(e) ==> e == Error::TextError,
    {
        let (t, q) = ReferenceType::parse(s, 0)?;
        if q != s.len() {
            return Err(Error::TextError);
        }
        assert(s@.subrange(0, q as int) =~= s@);
        Ok(t)
    }
}

} // verus!
