use vstd::prelude::*;

verus! {

/// The kind of a constant pool entry.
#[derive(Clone, Copy, Debug, PartialEq, Eq, Structural)]
pub enum EntryKind {
    Class,
    Fieldref,
    Methodref,
    InterfaceMethodref,
    String,
    Integer,
    Float,
    Long,
    Double,
    NameAndType,
    Utf8,
    MethodHandle,
    MethodType,
    Dynamic,
    InvokeDynamic,
    Module,
    Package,
}

/// Why a constant pool reference could not be resolved.
#[derive(Clone, Copy, Debug, PartialEq, Eq, Structural)]
pub enum PoolError {
    /// The index is 0 or past the end of the pool.
    BadIndex(u16),
    /// The index names the second slot of a Long or Double entry.
    Padding(u16),
    /// The slot holds an entry of another kind than the one asked for.
    Mismatch { index: u16, expected: EntryKind, found: EntryKind },
    /// A MethodHandle entry carries an unknown reference kind.
    BadReferenceKind(u8),
}

/// Why a run of bytes is not a well-formed class file (or part of one).
#[derive(Clone, Copy, Debug, PartialEq, Eq, Structural)]
pub enum DecodeError {
    /// The input ended before the structure did.
    UnexpectedEnd,
    /// The file does not start with 0xCAFEBABE.
    BadMagic,
    /// A constant pool tag byte that names no entry kind.
    UnknownTag(u8),
    /// A Utf8 constant whose bytes are not valid UTF-8.
    InvalidUtf8,
    /// A StackMapTable frame type in the reserved range 128..=246.
    UnknownFrameType(u8),
    /// A verification type tag above 8.
    UnknownVerificationType(u8),
    /// A byte that is no opcode.
    UnknownOpcode(u8),
    /// A tableswitch whose high bound is below its low bound.
    BadSwitchBounds,
}

/// Every failure the decoder reports.
#[derive(Clone, Copy, Debug, PartialEq, Eq, Structural)]
pub enum Error {
    /// A constant pool index resolved to nothing usable.
    ConstantPoolError(PoolError),
    /// Malformed binary input.
    BinaryError(DecodeError),
    /// A descriptor or signature string does not match its grammar.
    TextError,
    /// A dynamic call site in a class without a BootstrapMethods attribute.
    NoBootstrapMethods,
    /// A bootstrap method index past the end of the BootstrapMethods table.
    InvalidBootstrapIndex(u16),
}

pub type Result<T> = core::result::Result<T, Error>;

} // verus!
