//! Access flag sets. Bits outside the recognised set are dropped on decode,
//! never rejected.
use vstd::prelude::*;

verus! {

pub const ACC_PUBLIC: u16 = 0x0001;
pub const ACC_PRIVATE: u16 = 0x0002;
pub const ACC_PROTECTED: u16 = 0x0004;
pub const ACC_STATIC: u16 = 0x0008;
pub const ACC_FINAL: u16 = 0x0010;
pub const ACC_SUPER: u16 = 0x0020;
pub const ACC_SYNCHRONIZED: u16 = 0x0020;
pub const ACC_VOLATILE: u16 = 0x0040;
pub const ACC_BRIDGE: u16 = 0x0040;
pub const ACC_TRANSIENT: u16 = 0x0080;
pub const ACC_VARARGS: u16 = 0x0080;
pub const ACC_NATIVE: u16 = 0x0100;
pub const ACC_INTERFACE: u16 = 0x0200;
pub const ACC_ABSTRACT: u16 = 0x0400;
pub const ACC_SYNTHETIC: u16 = 0x1000;
pub const ACC_ANNOTATION: u16 = 0x2000;
pub const ACC_ENUM: u16 = 0x4000;
pub const ACC_MODULE: u16 = 0x8000;
/// The abstract bit of a method's flags in this decoder's method flag set.
pub const METHOD_ABSTRACT: u16 = 0x4000;
/// The strict bit of a method's flags in this decoder's method flag set.
pub const METHOD_STRICT: u16 = 0x8000;

/// The bits a class's access flags may hold.
pub const CLASS_FLAGS: u16 = 0xf631;
/// The bits a field's access flags may hold.
pub const FIELD_FLAGS: u16 = 0x50df;
/// The bits a method's access flags may hold.
pub const METHOD_FLAGS: u16 = 0xd1ff;
/// The bits an inner class's access flags may hold.
pub const INNER_CLASS_FLAGS: u16 = 0x761f;

/// The access flags of a class.
#[derive(Clone, Copy, Debug, PartialEq, Eq, Structural)]
pub struct ClassAccessFlags(pub u16);

/// The access flags of a field.
#[derive(Clone, Copy, Debug, PartialEq, Eq, Structural)]
pub struct FieldAccessFlags(pub u16);

/// The access flags of a method.
#[derive(Clone, Copy, Debug, PartialEq, Eq, Structural)]
pub struct MethodAccessFlags(pub u16);

/// The access flags of an inner class entry.
#[derive(Clone, Copy, Debug, PartialEq, Eq, Structural)]
pub struct InnerClassAccessFlags(pub u16);

impl ClassAccessFlags {
    pub fn from_bits_truncate(bits: u16) -> (r: Self)
        ensures
            r.0 == bits & CLASS_FLAGS,
    {
        ClassAccessFlags(bits & CLASS_FLAGS)
    }

    pub fn contains(&self, flag: u16) -> (r: bool)
        ensures
            r == (self.0 & flag == flag),
    {
        self.0 & flag == flag
    }
}

impl FieldAccessFlags {
    pub fn from_bits_truncate(bits: u16) -> (r: Self)
        ensures
            r.0 == bits & FIELD_FLAGS,
    {
        FieldAccessFlags(bits & FIELD_FLAGS)
    }

    pub fn contains(&self, flag: u16) -> (r: bool)
        ensures
            r == (self.0 & flag == flag),
    {
        self.0 & flag == flag
    }
}

impl MethodAccessFlags {
    pub fn from_bits_truncate(bits: u16) -> (r: Self)
        ensures
            r.0 == bits & METHOD_FLAGS,
    {
        MethodAccessFlags(bits & METHOD_FLAGS)
    }

    pub fn contains(&self, flag: u16) -> (r: bool)
        ensures
            r == (self.0 & flag == flag),
    {
        self.0 & flag == flag
    }
}

impl InnerClassAccessFlags {
    pub fn from_bits_truncate(bits: u16) -> (r: Self)
        ensures
            r.0 == bits & INNER_CLASS_FLAGS,
    {
        InnerClassAccessFlags(bits & INNER_CLASS_FLAGS)
    }

    pub fn contains(&self, flag: u16) -> (r: bool)
        ensures
            r == (self.0 & flag == flag),
    {
        self.0 & flag == flag
    }
}

} // verus!
