//! The bytecode instruction decoder: one instruction per call, with
//! constant pool operands resolved eagerly.
use vstd::prelude::*;

use crate::error::{DecodeError, EntryKind, Error};
use crate::pool::{class_name_at, ConstantPool, ClassIndex};
use crate::reader::{truncated, be16, be32, read_i16, read_i32, read_i8, read_u16, read_u32, read_u8, signed16, signed32, signed8};
use crate::refs::{bytes_opt, dynamic_result_ok, field_result_ok, interface_result_ok, maybe_result_ok, member_at, method_result_ok, DynamicInfo, FieldRef, InterfaceMethodRef, MaybeInterfaceMethodRef, MethodRef};

verus! {

/// The padding before a switch instruction's operands.
#[derive(Clone, Copy, Debug, PartialEq, Eq, Structural)]
pub struct BytePad;

/// The number of padding bytes that bring position `q` to a multiple of 4.
pub open spec fn pad_len(q: int) -> int {
    (4 - q % 4) % 4
}

impl BytePad {
    /// The first 4-byte-aligned position at or after `q`, counted from the
    /// start of the code array.
    pub fn skip(q: usize) -> (r: usize)
        requires
            q + 3 <= usize::MAX,
        ensures
            r == q + pad_len(q as int),
    {
        let d4 = q % 4;
        if d4 == 0 {
            q
        } else {
            q + (4 - d4)
        }
    }
}

/// Switch padding always lands on a 4-byte boundary of the code array, and
/// skips at most 3 bytes, whatever the opcode's position.
pub proof fn lemma_switch_alignment(p: int)
    requires
        p >= 0,
    ensures
        0 <= pad_len(p + 1) <= 3,
        (p + 1 + pad_len(p + 1)) % 4 == 0,
{
}

/// One JVM instruction with its operands.
#[allow(inconsistent_fields)]
#[derive(Debug)]
pub enum Instruction {
    Aaload,
    Aastore,
    AconstNull,
    Aload { index: u8 },
    Aload0,
    Aload1,
    Aload2,
    Aload3,
    Anewarray { class: Vec<u8> },
    Areturn,
    Arraylength,
    Astore { index: u8 },
    Astore0,
    Astore1,
    Astore2,
    Astore3,
    Athrow,
    Baload,
    Bastore,
    Bipush { byte: i8 },
    Caload,
    Castore,
    Checkcast { class: Vec<u8> },
    D2f,
    D2i,
    D2l,
    Dadd,
    Daload,
    Dastore,
    Dcmpg,
    Dcmpl,
    Dconst0,
    Dconst1,
    Ddiv,
    Dload { index: u8 },
    Dload0,
    Dload1,
    Dload2,
    Dload3,
    Dmul,
    Dneg,
    Drem,
    Dreturn,
    Dstore { index: u8 },
    Dstore0,
    Dstore1,
    Dstore2,
    Dstore3,
    Dsub,
    Dup,
    DupX1,
    DupX2,
    Dup2,
    Dup2X1,
    Dup2X2,
    F2d,
    F2i,
    F2l,
    Fadd,
    Faload,
    Fastore,
    Fcmpg,
    Fcmpl,
    Fconst0,
    Fconst1,
    Fconst2,
    Fdiv,
    Fload { index: u8 },
    Fload0,
    Fload1,
    Fload2,
    Fload3,
    Fmul,
    Fneg,
    Frem,
    Freturn,
    Fstore { index: u8 },
    Fstore0,
    Fstore1,
    Fstore2,
    Fstore3,
    Fsub,
    Getfield { field: FieldRef },
    Getstatic { field: FieldRef },
    Goto { offset: i16 },
    GotoW { offset: i32 },
    I2b,
    I2c,
    I2d,
    I2f,
    I2l,
    I2s,
    Iadd,
    Iaload,
    Iand,
    Iastore,
    IconstM1,
    Iconst0,
    Iconst1,
    Iconst2,
    Iconst3,
    Iconst4,
    Iconst5,
    Idiv,
    IfAcmpeq { offset: i16 },
    IfAcmpne { offset: i16 },
    IfIcmpeq { offset: i16 },
    IfIcmpne { offset: i16 },
    IfIcmplt { offset: i16 },
    IfIcmpge { offset: i16 },
    IfIcmpgt { offset: i16 },
    IfIcmple { offset: i16 },
    Ifeq { offset: i16 },
    Ifne { offset: i16 },
    Iflt { offset: i16 },
    Ifge { offset: i16 },
    Ifgt { offset: i16 },
    Ifle { offset: i16 },
    Ifnonnull { offset: i16 },
    Ifnull { offset: i16 },
    Iinc { index: u8, constant: i8 },
    Iload { index: u8 },
    Iload0,
    Iload1,
    Iload2,
    Iload3,
    Imul,
    Ineg,
    Instanceof { class: Vec<u8> },
    Invokedynamic { index: DynamicInfo },
    Invokeinterface { index: InterfaceMethodRef, count: u8 },
    Invokespecial { index: MaybeInterfaceMethodRef },
    Invokestatic { index: MaybeInterfaceMethodRef },
    Invokevirtual { index: MethodRef },
    Ior,
    Irem,
    Ireturn,
    Ishl,
    Ishr,
    Istore { index: u8 },
    Istore0,
    Istore1,
    Istore2,
    Istore3,
    Isub,
    Iushr,
    Ixor,
    Jsr { offset: i16 },
    JsrW { offset: i32 },
    L2d,
    L2f,
    L2i,
    Ladd,
    Laload,
    Land,
    Lastore,
    Lcmp,
    Lconst0,
    Lconst1,
    Ldc { index: u8 },
    LdcW { index: u16 },
    Ldc2W { index: u16 },
    Ldiv,
    Lload { index: u8 },
    Lload0,
    Lload1,
    Lload2,
    Lload3,
    Lmul,
    Lneg,
    Lookupswitch { default: i32, pairs: Vec<(i32, i32)> },
    Lor,
    Lrem,
    Lreturn,
    Lshl,
    Lshr,
    Lstore { index: u8 },
    Lstore0,
    Lstore1,
    Lstore2,
    Lstore3,
    Lsub,
    Lushr,
    Lxor,
    Monitorenter,
    Monitorexit,
    Multianewarray { class: Vec<u8>, dimensions: u8 },
    New { class: Vec<u8> },
    Newarray { atype: u8 },
    Nop,
    Pop,
    Pop2,
    Putfield { field: FieldRef },
    Putstatic { field: FieldRef },
    Ret { index: u8 },
    Return,
    Saload,
    Sastore,
    Sipush { value: i32 },
    Swap,
    Tableswitch { default: i32, low: i32, high: i32, jump_offsets: Vec<i32> },
    Wide { opcode: u8, index: u16, constant: Option<u16> },
}

/// The opcode of an instruction.
pub open spec fn opcode_of(i: Instruction) -> u8 {
    match i {
        Instruction::Aaload => 0x32,
        Instruction::Aastore => 0x53,
        Instruction::AconstNull => 0x01,
        Instruction::Aload { .. } => 0x19,
        Instruction::Aload0 => 0x2a,
        Instruction::Aload1 => 0x2b,
        Instruction::Aload2 => 0x2c,
        Instruction::Aload3 => 0x2d,
        Instruction::Anewarray { .. } => 0xbd,
        Instruction::Areturn => 0xb0,
        Instruction::Arraylength => 0xbe,
        Instruction::Astore { .. } => 0x3a,
        Instruction::Astore0 => 0x4b,
        Instruction::Astore1 => 0x4c,
        Instruction::Astore2 => 0x4d,
        Instruction::Astore3 => 0x4e,
        Instruction::Athrow => 0xbf,
        Instruction::Baload => 0x33,
        Instruction::Bastore => 0x54,
        Instruction::Bipush { .. } => 0x10,
        Instruction::Caload => 0x34,
        Instruction::Castore => 0x55,
        Instruction::Checkcast { .. } => 0xc0,
        Instruction::D2f => 0x90,
        Instruction::D2i => 0x8e,
        Instruction::D2l => 0x8f,
        Instruction::Dadd => 0x63,
        Instruction::Daload => 0x31,
        Instruction::Dastore => 0x52,
        Instruction::Dcmpg => 0x98,
        Instruction::Dcmpl => 0x97,
        Instruction::Dconst0 => 0x0e,
        Instruction::Dconst1 => 0x0f,
        Instruction::Ddiv => 0x6f,
        Instruction::Dload { .. } => 0x18,
        Instruction::Dload0 => 0x26,
        Instruction::Dload1 => 0x27,
        Instruction::Dload2 => 0x28,
        Instruction::Dload3 => 0x29,
        Instruction::Dmul => 0x6b,
        Instruction::Dneg => 0x77,
        Instruction::Drem => 0x73,
        Instruction::Dreturn => 0xaf,
        Instruction::Dstore { .. } => 0x39,
        Instruction::Dstore0 => 0x47,
        Instruction::Dstore1 => 0x48,
        Instruction::Dstore2 => 0x49,
        Instruction::Dstore3 => 0x4a,
        Instruction::Dsub => 0x67,
        Instruction::Dup => 0x59,
        Instruction::DupX1 => 0x5a,
        Instruction::DupX2 => 0x5b,
        Instruction::Dup2 => 0x5c,
        Instruction::Dup2X1 => 0x5d,
        Instruction::Dup2X2 => 0x5e,
        Instruction::F2d => 0x8d,
        Instruction::F2i => 0x8b,
        Instruction::F2l => 0x8c,
        Instruction::Fadd => 0x62,
        Instruction::Faload => 0x30,
        Instruction::Fastore => 0x51,
        Instruction::Fcmpg => 0x96,
        Instruction::Fcmpl => 0x95,
        Instruction::Fconst0 => 0x0b,
        Instruction::Fconst1 => 0x0c,
        Instruction::Fconst2 => 0x0d,
        Instruction::Fdiv => 0x6e,
        Instruction::Fload { .. } => 0x17,
        Instruction::Fload0 => 0x22,
        Instruction::Fload1 => 0x23,
        Instruction::Fload2 => 0x24,
        Instruction::Fload3 => 0x25,
        Instruction::Fmul => 0x6a,
        Instruction::Fneg => 0x76,
        Instruction::Frem => 0x72,
        Instruction::Freturn => 0xae,
        Instruction::Fstore { .. } => 0x38,
        Instruction::Fstore0 => 0x43,
        Instruction::Fstore1 => 0x44,
        Instruction::Fstore2 => 0x45,
        Instruction::Fstore3 => 0x46,
        Instruction::Fsub => 0x66,
        Instruction::Getfield { .. } => 0xb4,
        Instruction::Getstatic { .. } => 0xb2,
        Instruction::Goto { .. } => 0xa7,
        Instruction::GotoW { .. } => 0xc8,
        Instruction::I2b => 0x91,
        Instruction::I2c => 0x92,
        Instruction::I2d => 0x87,
        Instruction::I2f => 0x86,
        Instruction::I2l => 0x85,
        Instruction::I2s => 0x93,
        Instruction::Iadd => 0x60,
        Instruction::Iaload => 0x2e,
        Instruction::Iand => 0x7e,
        Instruction::Iastore => 0x4f,
        Instruction::IconstM1 => 0x02,
        Instruction::Iconst0 => 0x03,
        Instruction::Iconst1 => 0x04,
        Instruction::Iconst2 => 0x05,
        Instruction::Iconst3 => 0x06,
        Instruction::Iconst4 => 0x07,
        Instruction::Iconst5 => 0x08,
        Instruction::Idiv => 0x6c,
        Instruction::IfAcmpeq { .. } => 0xa5,
        Instruction::IfAcmpne { .. } => 0xa6,
        Instruction::IfIcmpeq { .. } => 0x9f,
        Instruction::IfIcmpne { .. } => 0xa0,
        Instruction::IfIcmplt { .. } => 0xa1,
        Instruction::IfIcmpge { .. } => 0xa2,
        Instruction::IfIcmpgt { .. } => 0xa3,
        Instruction::IfIcmple { .. } => 0xa4,
        Instruction::Ifeq { .. } => 0x99,
        Instruction::Ifne { .. } => 0x9a,
        Instruction::Iflt { .. } => 0x9b,
        Instruction::Ifge { .. } => 0x9c,
        Instruction::Ifgt { .. } => 0x9d,
        Instruction::Ifle { .. } => 0x9e,
        Instruction::Ifnonnull { .. } => 0xc7,
        Instruction::Ifnull { .. } => 0xc6,
        Instruction::Iinc { .. } => 0x84,
        Instruction::Iload { .. } => 0x15,
        Instruction::Iload0 => 0x1a,
        Instruction::Iload1 => 0x1b,
        Instruction::Iload2 => 0x1c,
        Instruction::Iload3 => 0x1d,
        Instruction::Imul => 0x68,
        Instruction::Ineg => 0x74,
        Instruction::Instanceof { .. } => 0xc1,
        Instruction::Invokedynamic { .. } => 0xba,
        Instruction::Invokeinterface { .. } => 0xb9,
        Instruction::Invokespecial { .. } => 0xb7,
        Instruction::Invokestatic { .. } => 0xb8,
        Instruction::Invokevirtual { .. } => 0xb6,
        Instruction::Ior => 0x80,
        Instruction::Irem => 0x70,
        Instruction::Ireturn => 0xac,
        Instruction::Ishl => 0x78,
        Instruction::Ishr => 0x7a,
        Instruction::Istore { .. } => 0x36,
        Instruction::Istore0 => 0x3b,
        Instruction::Istore1 => 0x3c,
        Instruction::Istore2 => 0x3d,
        Instruction::Istore3 => 0x3e,
        Instruction::Isub => 0x64,
        Instruction::Iushr => 0x7c,
        Instruction::Ixor => 0x82,
        Instruction::Jsr { .. } => 0xa8,
        Instruction::JsrW { .. } => 0xc9,
        Instruction::L2d => 0x8a,
        Instruction::L2f => 0x89,
        Instruction::L2i => 0x88,
        Instruction::Ladd => 0x61,
        Instruction::Laload => 0x2f,
        Instruction::Land => 0x7f,
        Instruction::Lastore => 0x50,
        Instruction::Lcmp => 0x94,
        Instruction::Lconst0 => 0x09,
        Instruction::Lconst1 => 0x0a,
        Instruction::Ldc { .. } => 0x12,
        Instruction::LdcW { .. } => 0x13,
        Instruction::Ldc2W { .. } => 0x14,
        Instruction::Ldiv => 0x6d,
        Instruction::Lload { .. } => 0x16,
        Instruction::Lload0 => 0x1e,
        Instruction::Lload1 => 0x1f,
        Instruction::Lload2 => 0x20,
        Instruction::Lload3 => 0x21,
        Instruction::Lmul => 0x69,
        Instruction::Lneg => 0x75,
        Instruction::Lookupswitch { .. } => 0xab,
        Instruction::Lor => 0x81,
        Instruction::Lrem => 0x71,
        Instruction::Lreturn => 0xad,
        Instruction::Lshl => 0x79,
        Instruction::Lshr => 0x7b,
        Instruction::Lstore { .. } => 0x37,
        Instruction::Lstore0 => 0x3f,
        Instruction::Lstore1 => 0x40,
        Instruction::Lstore2 => 0x41,
        Instruction::Lstore3 => 0x42,
        Instruction::Lsub => 0x65,
        Instruction::Lushr => 0x7d,
        Instruction::Lxor => 0x83,
        Instruction::Monitorenter => 0xc2,
        Instruction::Monitorexit => 0xc3,
        Instruction::Multianewarray { .. } => 0xc5,
        Instruction::New { .. } => 0xbb,
        Instruction::Newarray { .. } => 0xbc,
        Instruction::Nop => 0x00,
        Instruction::Pop => 0x57,
        Instruction::Pop2 => 0x58,
        Instruction::Putfield { .. } => 0xb5,
        Instruction::Putstatic { .. } => 0xb3,
        Instruction::Ret { .. } => 0xa9,
        Instruction::Return => 0xb1,
        Instruction::Saload => 0x35,
        Instruction::Sastore => 0x56,
        Instruction::Sipush { .. } => 0x11,
        Instruction::Swap => 0x5f,
        Instruction::Tableswitch { .. } => 0xaa,
        Instruction::Wide { .. } => 0xc4,
    }
}

impl Instruction {
    /// The opcode of this instruction.
    pub fn opcode(&self) -> (r: u8)
        ensures
            r == opcode_of(*self),
    {
        match self {
            Instruction::Aaload => 0x32,
            Instruction::Aastore => 0x53,
            Instruction::AconstNull => 0x01,
            Instruction::Aload { .. } => 0x19,
            Instruction::Aload0 => 0x2a,
            Instruction::Aload1 => 0x2b,
            Instruction::Aload2 => 0x2c,
            Instruction::Aload3 => 0x2d,
            Instruction::Anewarray { .. } => 0xbd,
            Instruction::Areturn => 0xb0,
            Instruction::Arraylength => 0xbe,
            Instruction::Astore { .. } => 0x3a,
            Instruction::Astore0 => 0x4b,
            Instruction::Astore1 => 0x4c,
            Instruction::Astore2 => 0x4d,
            Instruction::Astore3 => 0x4e,
            Instruction::Athrow => 0xbf,
            Instruction::Baload => 0x33,
            Instruction::Bastore => 0x54,
            Instruction::Bipush { .. } => 0x10,
            Instruction::Caload => 0x34,
            Instruction::Castore => 0x55,
            Instruction::Checkcast { .. } => 0xc0,
            Instruction::D2f => 0x90,
            Instruction::D2i => 0x8e,
            Instruction::D2l => 0x8f,
            Instruction::Dadd => 0x63,
            Instruction::Daload => 0x31,
            Instruction::Dastore => 0x52,
            Instruction::Dcmpg => 0x98,
            Instruction::Dcmpl => 0x97,
            Instruction::Dconst0 => 0x0e,
            Instruction::Dconst1 => 0x0f,
            Instruction::Ddiv => 0x6f,
            Instruction::Dload { .. } => 0x18,
            Instruction::Dload0 => 0x26,
            Instruction::Dload1 => 0x27,
            Instruction::Dload2 => 0x28,
            Instruction::Dload3 => 0x29,
            Instruction::Dmul => 0x6b,
            Instruction::Dneg => 0x77,
            Instruction::Drem => 0x73,
            Instruction::Dreturn => 0xaf,
            Instruction::Dstore { .. } => 0x39,
            Instruction::Dstore0 => 0x47,
            Instruction::Dstore1 => 0x48,
            Instruction::Dstore2 => 0x49,
            Instruction::Dstore3 => 0x4a,
            Instruction::Dsub => 0x67,
            Instruction::Dup => 0x59,
            Instruction::DupX1 => 0x5a,
            Instruction::DupX2 => 0x5b,
            Instruction::Dup2 => 0x5c,
            Instruction::Dup2X1 => 0x5d,
            Instruction::Dup2X2 => 0x5e,
            Instruction::F2d => 0x8d,
            Instruction::F2i => 0x8b,
            Instruction::F2l => 0x8c,
            Instruction::Fadd => 0x62,
            Instruction::Faload => 0x30,
            Instruction::Fastore => 0x51,
            Instruction::Fcmpg => 0x96,
            Instruction::Fcmpl => 0x95,
            Instruction::Fconst0 => 0x0b,
            Instruction::Fconst1 => 0x0c,
            Instruction::Fconst2 => 0x0d,
            Instruction::Fdiv => 0x6e,
            Instruction::Fload { .. } => 0x17,
            Instruction::Fload0 => 0x22,
            Instruction::Fload1 => 0x23,
            Instruction::Fload2 => 0x24,
            Instruction::Fload3 => 0x25,
            Instruction::Fmul => 0x6a,
            Instruction::Fneg => 0x76,
            Instruction::Frem => 0x72,
            Instruction::Freturn => 0xae,
            Instruction::Fstore { .. } => 0x38,
            Instruction::Fstore0 => 0x43,
            Instruction::Fstore1 => 0x44,
            Instruction::Fstore2 => 0x45,
            Instruction::Fstore3 => 0x46,
            Instruction::Fsub => 0x66,
            Instruction::Getfield { .. } => 0xb4,
            Instruction::Getstatic { .. } => 0xb2,
            Instruction::Goto { .. } => 0xa7,
            Instruction::GotoW { .. } => 0xc8,
            Instruction::I2b => 0x91,
            Instruction::I2c => 0x92,
            Instruction::I2d => 0x87,
            Instruction::I2f => 0x86,
            Instruction::I2l => 0x85,
            Instruction::I2s => 0x93,
            Instruction::Iadd => 0x60,
            Instruction::Iaload => 0x2e,
            Instruction::Iand => 0x7e,
            Instruction::Iastore => 0x4f,
            Instruction::IconstM1 => 0x02,
            Instruction::Iconst0 => 0x03,
            Instruction::Iconst1 => 0x04,
            Instruction::Iconst2 => 0x05,
            Instruction::Iconst3 => 0x06,
            Instruction::Iconst4 => 0x07,
            Instruction::Iconst5 => 0x08,
            Instruction::Idiv => 0x6c,
            Instruction::IfAcmpeq { .. } => 0xa5,
            Instruction::IfAcmpne { .. } => 0xa6,
            Instruction::IfIcmpeq { .. } => 0x9f,
            Instruction::IfIcmpne { .. } => 0xa0,
            Instruction::IfIcmplt { .. } => 0xa1,
            Instruction::IfIcmpge { .. } => 0xa2,
            Instruction::IfIcmpgt { .. } => 0xa3,
            Instruction::IfIcmple { .. } => 0xa4,
            Instruction::Ifeq { .. } => 0x99,
            Instruction::Ifne { .. } => 0x9a,
            Instruction::Iflt { .. } => 0x9b,
            Instruction::Ifge { .. } => 0x9c,
            Instruction::Ifgt { .. } => 0x9d,
            Instruction::Ifle { .. } => 0x9e,
            Instruction::Ifnonnull { .. } => 0xc7,
            Instruction::Ifnull { .. } => 0xc6,
            Instruction::Iinc { .. } => 0x84,
            Instruction::Iload { .. } => 0x15,
            Instruction::Iload0 => 0x1a,
            Instruction::Iload1 => 0x1b,
            Instruction::Iload2 => 0x1c,
            Instruction::Iload3 => 0x1d,
            Instruction::Imul => 0x68,
            Instruction::Ineg => 0x74,
            Instruction::Instanceof { .. } => 0xc1,
            Instruction::Invokedynamic { .. } => 0xba,
            Instruction::Invokeinterface { .. } => 0xb9,
            Instruction::Invokespecial { .. } => 0xb7,
            Instruction::Invokestatic { .. } => 0xb8,
            Instruction::Invokevirtual { .. } => 0xb6,
            Instruction::Ior => 0x80,
            Instruction::Irem => 0x70,
            Instruction::Ireturn => 0xac,
            Instruction::Ishl => 0x78,
            Instruction::Ishr => 0x7a,
            Instruction::Istore { .. } => 0x36,
            Instruction::Istore0 => 0x3b,
            Instruction::Istore1 => 0x3c,
            Instruction::Istore2 => 0x3d,
            Instruction::Istore3 => 0x3e,
            Instruction::Isub => 0x64,
            Instruction::Iushr => 0x7c,
            Instruction::Ixor => 0x82,
            Instruction::Jsr { .. } => 0xa8,
            Instruction::JsrW { .. } => 0xc9,
            Instruction::L2d => 0x8a,
            Instruction::L2f => 0x89,
            Instruction::L2i => 0x88,
            Instruction::Ladd => 0x61,
            Instruction::Laload => 0x2f,
            Instruction::Land => 0x7f,
            Instruction::Lastore => 0x50,
            Instruction::Lcmp => 0x94,
            Instruction::Lconst0 => 0x09,
            Instruction::Lconst1 => 0x0a,
            Instruction::Ldc { .. } => 0x12,
            Instruction::LdcW { .. } => 0x13,
            Instruction::Ldc2W { .. } => 0x14,
            Instruction::Ldiv => 0x6d,
            Instruction::Lload { .. } => 0x16,
            Instruction::Lload0 => 0x1e,
            Instruction::Lload1 => 0x1f,
            Instruction::Lload2 => 0x20,
            Instruction::Lload3 => 0x21,
            Instruction::Lmul => 0x69,
            Instruction::Lneg => 0x75,
            Instruction::Lookupswitch { .. } => 0xab,
            Instruction::Lor => 0x81,
            Instruction::Lrem => 0x71,
            Instruction::Lreturn => 0xad,
            Instruction::Lshl => 0x79,
            Instruction::Lshr => 0x7b,
            Instruction::Lstore { .. } => 0x37,
            Instruction::Lstore0 => 0x3f,
            Instruction::Lstore1 => 0x40,
            Instruction::Lstore2 => 0x41,
            Instruction::Lstore3 => 0x42,
            Instruction::Lsub => 0x65,
            Instruction::Lushr => 0x7d,
            Instruction::Lxor => 0x83,
            Instruction::Monitorenter => 0xc2,
            Instruction::Monitorexit => 0xc3,
            Instruction::Multianewarray { .. } => 0xc5,
            Instruction::New { .. } => 0xbb,
            Instruction::Newarray { .. } => 0xbc,
            Instruction::Nop => 0x00,
            Instruction::Pop => 0x57,
            Instruction::Pop2 => 0x58,
            Instruction::Putfield { .. } => 0xb5,
            Instruction::Putstatic { .. } => 0xb3,
            Instruction::Ret { .. } => 0xa9,
            Instruction::Return => 0xb1,
            Instruction::Saload => 0x35,
            Instruction::Sastore => 0x56,
            Instruction::Sipush { .. } => 0x11,
            Instruction::Swap => 0x5f,
            Instruction::Tableswitch { .. } => 0xaa,
            Instruction::Wide { .. } => 0xc4,
        }
    }
}

/// The number of operand bytes of an opcode with a fixed-size encoding;
/// -1 for the switches, `wide`, and bytes that are no opcode.
pub open spec fn fixed_operand_len(op: u8) -> int {
    if 0x00 <= op <= 0x0f || 0x1a <= op <= 0x35 || 0x3b <= op <= 0x83 ||
        0x85 <= op <= 0x98 || 0xac <= op <= 0xb1 || 0xbe <= op <= 0xbf || 0xc2 <= op <= 0xc3 {
        0
    } else if op == 0x10 || op == 0x12 || 0x15 <= op <= 0x19 || 0x36 <= op <= 0x3a ||
        op == 0xa9 || op == 0xbc {
        1
    } else if op == 0x11 || 0x13 <= op <= 0x14 || op == 0x84 || 0x99 <= op <= 0xa8 ||
        0xb2 <= op <= 0xb8 || op == 0xbb || op == 0xbd || 0xc0 <= op <= 0xc1 ||
        0xc6 <= op <= 0xc7 {
        2
    } else if op == 0xc5 {
        3
    } else if 0xb9 <= op <= 0xba || 0xc8 <= op <= 0xc9 {
        4
    } else {
        -1
    }
}

/// The number of operand bytes of a fixed-size opcode; -1 otherwise.
fn fixed_operand_len_exec(op: u8) -> (r: i8)
    ensures
        r as int == fixed_operand_len(op),
{
    if (0x00 <= op && op <= 0x0f) || (0x1a <= op && op <= 0x35) || (0x3b <= op && op <= 0x83) ||
        (0x85 <= op && op <= 0x98) || (0xac <= op && op <= 0xb1) || (0xbe <= op && op <= 0xbf) || (0xc2 <= op && op <= 0xc3) {
        0
    } else if op == 0x10 || op == 0x12 || (0x15 <= op && op <= 0x19) || (0x36 <= op && op <= 0x3a) ||
        op == 0xa9 || op == 0xbc {
        1
    } else if op == 0x11 || (0x13 <= op && op <= 0x14) || op == 0x84 || (0x99 <= op && op <= 0xa8) ||
        (0xb2 <= op && op <= 0xb8) || op == 0xbb || op == 0xbd || (0xc0 <= op && op <= 0xc1) ||
        (0xc6 <= op && op <= 0xc7) {
        2
    } else if op == 0xc5 {
        3
    } else if (0xb9 <= op && op <= 0xba) || (0xc8 <= op && op <= 0xc9) {
        4
    } else {
        -1
    }
}

/// Where the instruction that starts at `p` ends, if its encoding is
/// complete within `s`; switch padding is counted from the start of `s`.
pub open spec fn insn_end(s: Seq<u8>, p: int) -> Option<int> {
    if p < 0 || p >= s.len() {
        None
    } else {
        let op = s[p];
        let q = p + 1 + pad_len(p + 1);
        if op == 0xaa {
            if q + 12 > s.len() {
                None
            } else {
                let low = signed32(be32(s, q + 4));
                let high = signed32(be32(s, q + 8));
                if high < low || q + 12 + 4 * (high - low + 1) > s.len() {
                    None
                } else {
                    Some(q + 12 + 4 * (high - low + 1))
                }
            }
        } else if op == 0xab {
            if q + 8 > s.len() || q + 8 + 8 * be32(s, q + 4) > s.len() {
                None
            } else {
                Some(q + 8 + 8 * be32(s, q + 4))
            }
        } else if op == 0xc4 {
            let e = if p + 1 < s.len() && s[p + 1] == 0x84 { p + 6 } else { p + 4 };
            if e > s.len() {
                None
            } else {
                Some(e)
            }
        } else if fixed_operand_len(op) < 0 || p + 1 + fixed_operand_len(op) > s.len() {
            None
        } else {
            Some(p + 1 + fixed_operand_len(op))
        }
    }
}

/// The error decoding reports for an instruction at `p` whose encoding is
/// not complete in `s`: a byte that is no opcode, a tableswitch whose high
/// bound is below its low bound, or else the end of the input.
pub open spec fn insn_error(s: Seq<u8>, p: int) -> Error {
    if p < 0 || p >= s.len() {
        truncated()
    } else {
        let op = s[p];
        let q = p + 1 + pad_len(p + 1);
        if op == 0xaa && q + 12 <= s.len() && signed32(be32(s, q + 8)) < signed32(be32(s, q + 4)) {
            Error::BinaryError(DecodeError::BadSwitchBounds)
        } else if op != 0xaa && op != 0xab && op != 0xc4 && fixed_operand_len(op) < 0 {
            Error::BinaryError(DecodeError::UnknownOpcode(op))
        } else {
            truncated()
        }
    }
}

/// Where the run of complete instructions from `p` stops: the end of `s`
/// when they tile it, else the start of the first incomplete one.
pub open spec fn stream_stop(s: Seq<u8>, p: int) -> int
    decreases s.len() - p,
{
    if p < 0 || p >= s.len() {
        p
    } else {
        match insn_end(s, p) {
            Some(q) => if p < q { stream_stop(s, q) } else { p },
            None => p,
        }
    }
}

/// The immediate operands of `i`, decoded from the instruction at `p`.
pub open spec fn operands_ok(i: Instruction, s: Seq<u8>, p: int) -> bool {
    let q = p + 1 + pad_len(p + 1);
    match i {
        Instruction::Aload { index } | Instruction::Astore { index } | Instruction::Dload { index } | Instruction::Dstore { index } | Instruction::Fload { index } | Instruction::Fstore { index } | Instruction::Iload { index } | Instruction::Istore { index } | Instruction::Ldc { index } | Instruction::Lload { index } | Instruction::Lstore { index } | Instruction::Ret { index } => index == s[p + 1],
        Instruction::Newarray { atype } => atype == s[p + 1],
        Instruction::Bipush { byte } => byte as int == signed8(s[p + 1] as int),
        Instruction::Sipush { value } => value as int == signed16(be16(s, p + 1)),
        Instruction::Iinc { index, constant } => index == s[p + 1] && constant as int == signed8(s[p + 2] as int),
        Instruction::Goto { offset } | Instruction::IfAcmpeq { offset } | Instruction::IfAcmpne { offset } | Instruction::IfIcmpeq { offset } | Instruction::IfIcmpne { offset } | Instruction::IfIcmplt { offset } | Instruction::IfIcmpge { offset } | Instruction::IfIcmpgt { offset } | Instruction::IfIcmple { offset } | Instruction::Ifeq { offset } | Instruction::Ifne { offset } | Instruction::Iflt { offset } | Instruction::Ifge { offset } | Instruction::Ifgt { offset } | Instruction::Ifle { offset } | Instruction::Ifnonnull { offset } | Instruction::Ifnull { offset } | Instruction::Jsr { offset } => offset as int == signed16(be16(s, p + 1)),
        Instruction::GotoW { offset } | Instruction::JsrW { offset } => offset as int == signed32(be32(s, p + 1)),
        Instruction::LdcW { index } | Instruction::Ldc2W { index } => index as int == be16(s, p + 1),
        Instruction::Multianewarray { dimensions, .. } => dimensions == s[p + 3],
        Instruction::Invokeinterface { count, .. } => count == s[p + 3],
        Instruction::Tableswitch { default, low, high, jump_offsets } => {
            &&& default as int == signed32(be32(s, q))
            &&& low as int == signed32(be32(s, q + 4))
            &&& high as int == signed32(be32(s, q + 8))
            &&& jump_offsets@.len() == high - low + 1
            &&& forall|k: int| 0 <= k < jump_offsets@.len() ==> #[trigger] jump_offsets@[k] as int == signed32(be32(s, q + 12 + 4 * k))
        },
        Instruction::Lookupswitch { default, pairs } => {
            &&& default as int == signed32(be32(s, q))
            &&& pairs@.len() == be32(s, q + 4)
            &&& forall|k: int| 0 <= k < pairs@.len() ==> #[trigger] pairs@[k].0 as int == signed32(be32(s, q + 8 + 8 * k))
                && pairs@[k].1 as int == signed32(be32(s, q + 12 + 8 * k))
        },
        Instruction::Wide { opcode, index, constant } => {
            &&& opcode == s[p + 1]
            &&& index as int == be16(s, p + 2)
            &&& constant == if opcode == 0x84 { Some(be16(s, p + 4) as u16) } else { None }
        },
        _ => true,
    }
}

/// The constant pool operands of `i` are what the index at `p + 1` resolves to.
pub open spec fn resolved_ok(i: Instruction, s: Seq<u8>, p: int, pool: ConstantPool, bootstrap: Option<Seq<u8>>) -> bool {
    let index = be16(s, p + 1) as u16;
    match i {
        Instruction::Anewarray { class } | Instruction::Checkcast { class } | Instruction::Instanceof { class } | Instruction::New { class } | Instruction::Multianewarray { class, .. } => class_name_at(pool, index) == Ok::<Seq<u8>, Error>(class@),
        Instruction::Getfield { field } | Instruction::Getstatic { field } | Instruction::Putfield { field } | Instruction::Putstatic { field } => field_result_ok(Ok(field), member_at(pool, index, EntryKind::Fieldref)),
        Instruction::Invokevirtual { index: m } => method_result_ok(Ok(m), member_at(pool, index, EntryKind::Methodref)),
        Instruction::Invokespecial { index: m } | Instruction::Invokestatic { index: m } => maybe_result_ok(pool, index, Ok(m)),
        Instruction::Invokeinterface { index: m, .. } => interface_result_ok(Ok(m), member_at(pool, index, EntryKind::InterfaceMethodref)),
        Instruction::Invokedynamic { index: d } => dynamic_result_ok(pool, index, bootstrap, Ok(d)),
        _ => true,
    }
}

/// Resolving the constant pool operand of the instruction at `p` fails with `e`.
pub open spec fn operand_error(s: Seq<u8>, p: int, pool: ConstantPool, bootstrap: Option<Seq<u8>>, e: Error) -> bool {
    let op = s[p];
    let index = be16(s, p + 1) as u16;
    if op == 0xbd || op == 0xc0 || op == 0xc1 || op == 0xc5 || op == 0xbb {
        class_name_at(pool, index) == Err::<Seq<u8>, Error>(e)
    } else if op == 0xb4 || op == 0xb2 || op == 0xb5 || op == 0xb3 {
        field_result_ok(Err(e), member_at(pool, index, EntryKind::Fieldref))
    } else if op == 0xb6 {
        method_result_ok(Err(e), member_at(pool, index, EntryKind::Methodref))
    } else if op == 0xb7 || op == 0xb8 {
        maybe_result_ok(pool, index, Err(e))
    } else if op == 0xb9 {
        interface_result_ok(Err(e), member_at(pool, index, EntryKind::InterfaceMethodref))
    } else if op == 0xba {
        dynamic_result_ok(pool, index, bootstrap, Err(e))
    } else {
        false
    }
}

/// The operand-free instruction with opcode `op`, if `op` is one.
#[verifier::spinoff_prover]
#[verifier::rlimit(100)]
fn decode_unit(op: u8) -> (r: Option<Instruction>)
    ensures
        match r {
            Some(i) => {
                &&& fixed_operand_len(op) == 0
                &&& opcode_of(i) == op
                &&& forall|s: Seq<u8>, p: int| #[trigger] operands_ok(i, s, p)
                &&& forall|s: Seq<u8>, p: int, pool: ConstantPool, b: Option<Seq<u8>>| #[trigger] resolved_ok(i, s, p, pool, b)
            },
            None => fixed_operand_len(op) != 0,
        },
{
    match op {
        0x32 => Some(Instruction::Aaload),
        0x53 => Some(Instruction::Aastore),
        0x01 => Some(Instruction::AconstNull),
        0x2a => Some(Instruction::Aload0),
        0x2b => Some(Instruction::Aload1),
        0x2c => Some(Instruction::Aload2),
        0x2d => Some(Instruction::Aload3),
        0xb0 => Some(Instruction::Areturn),
        0xbe => Some(Instruction::Arraylength),
        0x4b => Some(Instruction::Astore0),
        0x4c => Some(Instruction::Astore1),
        0x4d => Some(Instruction::Astore2),
        0x4e => Some(Instruction::Astore3),
        0xbf => Some(Instruction::Athrow),
        0x33 => Some(Instruction::Baload),
        0x54 => Some(Instruction::Bastore),
        0x34 => Some(Instruction::Caload),
        0x55 => Some(Instruction::Castore),
        0x90 => Some(Instruction::D2f),
        0x8e => Some(Instruction::D2i),
        0x8f => Some(Instruction::D2l),
        0x63 => Some(Instruction::Dadd),
        0x31 => Some(Instruction::Daload),
        0x52 => Some(Instruction::Dastore),
        0x98 => Some(Instruction::Dcmpg),
        0x97 => Some(Instruction::Dcmpl),
        0x0e => Some(Instruction::Dconst0),
        0x0f => Some(Instruction::Dconst1),
        0x6f => Some(Instruction::Ddiv),
        0x26 => Some(Instruction::Dload0),
        0x27 => Some(Instruction::Dload1),
        0x28 => Some(Instruction::Dload2),
        0x29 => Some(Instruction::Dload3),
        0x6b => Some(Instruction::Dmul),
        0x77 => Some(Instruction::Dneg),
        0x73 => Some(Instruction::Drem),
        0xaf => Some(Instruction::Dreturn),
        0x47 => Some(Instruction::Dstore0),
        0x48 => Some(Instruction::Dstore1),
        0x49 => Some(Instruction::Dstore2),
        0x4a => Some(Instruction::Dstore3),
        0x67 => Some(Instruction::Dsub),
        0x59 => Some(Instruction::Dup),
        0x5a => Some(Instruction::DupX1),
        0x5b => Some(Instruction::DupX2),
        0x5c => Some(Instruction::Dup2),
        0x5d => Some(Instruction::Dup2X1),
        0x5e => Some(Instruction::Dup2X2),
        0x8d => Some(Instruction::F2d),
        0x8b => Some(Instruction::F2i),
        0x8c => Some(Instruction::F2l),
        0x62 => Some(Instruction::Fadd),
        0x30 => Some(Instruction::Faload),
        0x51 => Some(Instruction::Fastore),
        0x96 => Some(Instruction::Fcmpg),
        0x95 => Some(Instruction::Fcmpl),
        0x0b => Some(Instruction::Fconst0),
        0x0c => Some(Instruction::Fconst1),
        0x0d => Some(Instruction::Fconst2),
        0x6e => Some(Instruction::Fdiv),
        0x22 => Some(Instruction::Fload0),
        0x23 => Some(Instruction::Fload1),
        0x24 => Some(Instruction::Fload2),
        0x25 => Some(Instruction::Fload3),
        0x6a => Some(Instruction::Fmul),
        0x76 => Some(Instruction::Fneg),
        0x72 => Some(Instruction::Frem),
        0xae => Some(Instruction::Freturn),
        0x43 => Some(Instruction::Fstore0),
        0x44 => Some(Instruction::Fstore1),
        0x45 => Some(Instruction::Fstore2),
        0x46 => Some(Instruction::Fstore3),
        0x66 => Some(Instruction::Fsub),
        0x91 => Some(Instruction::I2b),
        0x92 => Some(Instruction::I2c),
        0x87 => Some(Instruction::I2d),
        0x86 => Some(Instruction::I2f),
        0x85 => Some(Instruction::I2l),
        0x93 => Some(Instruction::I2s),
        0x60 => Some(Instruction::Iadd),
        0x2e => Some(Instruction::Iaload),
        0x7e => Some(Instruction::Iand),
        0x4f => Some(Instruction::Iastore),
        0x02 => Some(Instruction::IconstM1),
        0x03 => Some(Instruction::Iconst0),
        0x04 => Some(Instruction::Iconst1),
        0x05 => Some(Instruction::Iconst2),
        0x06 => Some(Instruction::Iconst3),
        0x07 => Some(Instruction::Iconst4),
        0x08 => Some(Instruction::Iconst5),
        0x6c => Some(Instruction::Idiv),
        0x1a => Some(Instruction::Iload0),
        0x1b => Some(Instruction::Iload1),
        0x1c => Some(Instruction::Iload2),
        0x1d => Some(Instruction::Iload3),
        0x68 => Some(Instruction::Imul),
        0x74 => Some(Instruction::Ineg),
        0x80 => Some(Instruction::Ior),
        0x70 => Some(Instruction::Irem),
        0xac => Some(Instruction::Ireturn),
        0x78 => Some(Instruction::Ishl),
        0x7a => Some(Instruction::Ishr),
        0x3b => Some(Instruction::Istore0),
        0x3c => Some(Instruction::Istore1),
        0x3d => Some(Instruction::Istore2),
        0x3e => Some(Instruction::Istore3),
        0x64 => Some(Instruction::Isub),
        0x7c => Some(Instruction::Iushr),
        0x82 => Some(Instruction::Ixor),
        0x8a => Some(Instruction::L2d),
        0x89 => Some(Instruction::L2f),
        0x88 => Some(Instruction::L2i),
        0x61 => Some(Instruction::Ladd),
        0x2f => Some(Instruction::Laload),
        0x7f => Some(Instruction::Land),
        0x50 => Some(Instruction::Lastore),
        0x94 => Some(Instruction::Lcmp),
        0x09 => Some(Instruction::Lconst0),
        0x0a => Some(Instruction::Lconst1),
        0x6d => Some(Instruction::Ldiv),
        0x1e => Some(Instruction::Lload0),
        0x1f => Some(Instruction::Lload1),
        0x20 => Some(Instruction::Lload2),
        0x21 => Some(Instruction::Lload3),
        0x69 => Some(Instruction::Lmul),
        0x75 => Some(Instruction::Lneg),
        0x81 => Some(Instruction::Lor),
        0x71 => Some(Instruction::Lrem),
        0xad => Some(Instruction::Lreturn),
        0x79 => Some(Instruction::Lshl),
        0x7b => Some(Instruction::Lshr),
        0x3f => Some(Instruction::Lstore0),
        0x40 => Some(Instruction::Lstore1),
        0x41 => Some(Instruction::Lstore2),
        0x42 => Some(Instruction::Lstore3),
        0x65 => Some(Instruction::Lsub),
        0x7d => Some(Instruction::Lushr),
        0x83 => Some(Instruction::Lxor),
        0xc2 => Some(Instruction::Monitorenter),
        0xc3 => Some(Instruction::Monitorexit),
        0x00 => Some(Instruction::Nop),
        0x57 => Some(Instruction::Pop),
        0x58 => Some(Instruction::Pop2),
        0xb1 => Some(Instruction::Return),
        0x35 => Some(Instruction::Saload),
        0x56 => Some(Instruction::Sastore),
        0x5f => Some(Instruction::Swap),
        _ => None,
    }
}

/// What decoding the instruction at `p` may yield: the instruction, with its
/// end, opcode and operands as the bytes and the pool give them; or an error,
/// only where the encoding is incomplete or an operand does not resolve.
pub open spec fn parse_outcome(
    s: Seq<u8>,
    p: int,
    pool: ConstantPool,
    bootstrap: Option<Seq<u8>>,
    r: Result<(Instruction, usize), Error>,
) -> bool {
    match r {
        Ok((i, q)) => {
            &&& insn_end(s, p) == Some(q as int)
            &&& opcode_of(i) == s[p]
            &&& operands_ok(i, s, p)
            &&& resolved_ok(i, s, p, pool, bootstrap)
        },
        Err(e) => match insn_end(s, p) {
            None => e == insn_error(s, p),
            Some(_) => operand_error(s, p, pool, bootstrap, e),
        },
    }
}

impl Instruction {
    /// Decodes the instruction at `p` of the code array `s`, resolving its
    /// constant pool operands against `pool` and, for `invokedynamic`, the
    /// class's BootstrapMethods payload `bootstrap`. Returns it with the
    /// position of the next instruction.
    pub fn parse(s: &[u8], p: usize, pool: &ConstantPool, bootstrap: Option<&[u8]>) -> (r: Result<(Instruction, usize), Error>)
        requires
            pool.wf(),
        ensures
            parse_outcome(s@, p as int, *pool, bytes_opt(bootstrap), r),
    {
        if p >= s.len() {
            return Err(Error::BinaryError(DecodeError::UnexpectedEnd));
        }
        let op = s[p];
        if op == 0xaa {
            let r = parse_tableswitch(s, p);
            assert(r matches Ok((i, _)) ==> opcode_of(i) == 0xaa && resolved_ok(i, s@, p as int, *pool, bytes_opt(bootstrap)));
            return r;
        }
        if op == 0xab {
            let r = parse_lookupswitch(s, p);
            assert(r matches Ok((i, _)) ==> opcode_of(i) == 0xab && resolved_ok(i, s@, p as int, *pool, bytes_opt(bootstrap)));
            return r;
        }
        if op == 0xc4 {
            return parse_wide(s, p);
        }
        if let Some(i) = decode_unit(op) {
            return Ok((i, p + 1));
        }
        let n = fixed_operand_len_exec(op);
        if n < 0 {
            return Err(Error::BinaryError(DecodeError::UnknownOpcode(op)));
        }
        if s.len() - p - 1 < n as usize {
            return Err(Error::BinaryError(DecodeError::UnexpectedEnd));
        }
        Instruction::parse_operands(s, p, pool, bootstrap)
    }

    /// Decodes an instruction with operands whose encoding lies complete in
    /// `s`; only resolving its operands can fail.
    #[verifier::spinoff_prover]
    #[verifier::rlimit(100)]
    fn parse_operands(s: &[u8], p: usize, pool: &ConstantPool, bootstrap: Option<&[u8]>) -> (r: Result<(Instruction, usize), Error>)
        requires
            pool.wf(),
            p < s@.len(),
            s@[p as int] != 0xaa && s@[p as int] != 0xab && s@[p as int] != 0xc4,
            fixed_operand_len(s@[p as int]) > 0,
            p + 1 + fixed_operand_len(s@[p as int]) <= s@.len(),
        ensures
            match r {
                Ok((i, q)) => {
                    &&& insn_end(s@, p as int) == Some(q as int)
                    &&& opcode_of(i) == s@[p as int]
                    &&& operands_ok(i, s@, p as int)
                    &&& resolved_ok(i, s@, p as int, *pool, bytes_opt(bootstrap))
                },
                Err(e) => operand_error(s@, p as int, *pool, bytes_opt(bootstrap), e),
            },
    {
        let op = s[p];
        match op {
            0x19 => {
                let index = read_u8(s, p + 1)?;
                Ok((Instruction::Aload { index }, p + 2))
            },
            0xbd => {
                let class = class_operand(s, p, pool)?;
                Ok((Instruction::Anewarray { class }, p + 3))
            },
            0x3a => {
                let index = read_u8(s, p + 1)?;
                Ok((Instruction::Astore { index }, p + 2))
            },
            0x10 => {
                let byte = read_i8(s, p + 1)?;
                Ok((Instruction::Bipush { byte }, p + 2))
            },
            0xc0 => {
                let class = class_operand(s, p, pool)?;
                Ok((Instruction::Checkcast { class }, p + 3))
            },
            0x18 => {
                let index = read_u8(s, p + 1)?;
                Ok((Instruction::Dload { index }, p + 2))
            },
            0x39 => {
                let index = read_u8(s, p + 1)?;
                Ok((Instruction::Dstore { index }, p + 2))
            },
            0x17 => {
                let index = read_u8(s, p + 1)?;
                Ok((Instruction::Fload { index }, p + 2))
            },
            0x38 => {
                let index = read_u8(s, p + 1)?;
                Ok((Instruction::Fstore { index }, p + 2))
            },
            0xb4 => {
                let index = read_u16(s, p + 1)?;
                let field = FieldRef::from_u16(index, pool)?;
                Ok((Instruction::Getfield { field }, p + 3))
            },
            0xb2 => {
                let index = read_u16(s, p + 1)?;
                let field = FieldRef::from_u16(index, pool)?;
                Ok((Instruction::Getstatic { field }, p + 3))
            },
            0xa7 => {
                let offset = read_i16(s, p + 1)?;
                Ok((Instruction::Goto { offset }, p + 3))
            },
            0xc8 => {
                let offset = read_i32(s, p + 1)?;
                Ok((Instruction::GotoW { offset }, p + 5))
            },
            0xa5 => {
                let offset = read_i16(s, p + 1)?;
                Ok((Instruction::IfAcmpeq { offset }, p + 3))
            },
            0xa6 => {
                let offset = read_i16(s, p + 1)?;
                Ok((Instruction::IfAcmpne { offset }, p + 3))
            },
            0x9f => {
                let offset = read_i16(s, p + 1)?;
                Ok((Instruction::IfIcmpeq { offset }, p + 3))
            },
            0xa0 => {
                let offset = read_i16(s, p + 1)?;
                Ok((Instruction::IfIcmpne { offset }, p + 3))
            },
            0xa1 => {
                let offset = read_i16(s, p + 1)?;
                Ok((Instruction::IfIcmplt { offset }, p + 3))
            },
            0xa2 => {
                let offset = read_i16(s, p + 1)?;
                Ok((Instruction::IfIcmpge { offset }, p + 3))
            },
            0xa3 => {
                let offset = read_i16(s, p + 1)?;
                Ok((Instruction::IfIcmpgt { offset }, p + 3))
            },
            0xa4 => {
                let offset = read_i16(s, p + 1)?;
                Ok((Instruction::IfIcmple { offset }, p + 3))
            },
            0x99 => {
                let offset = read_i16(s, p + 1)?;
                Ok((Instruction::Ifeq { offset }, p + 3))
            },
            0x9a => {
                let offset = read_i16(s, p + 1)?;
                Ok((Instruction::Ifne { offset }, p + 3))
            },
            0x9b => {
                let offset = read_i16(s, p + 1)?;
                Ok((Instruction::Iflt { offset }, p + 3))
            },
            0x9c => {
                let offset = read_i16(s, p + 1)?;
                Ok((Instruction::Ifge { offset }, p + 3))
            },
            0x9d => {
                let offset = read_i16(s, p + 1)?;
                Ok((Instruction::Ifgt { offset }, p + 3))
            },
            0x9e => {
                let offset = read_i16(s, p + 1)?;
                Ok((Instruction::Ifle { offset }, p + 3))
            },
            0xc7 => {
                let offset = read_i16(s, p + 1)?;
                Ok((Instruction::Ifnonnull { offset }, p + 3))
            },
            0xc6 => {
                let offset = read_i16(s, p + 1)?;
                Ok((Instruction::Ifnull { offset }, p + 3))
            },
            0x84 => {
                let index = read_u8(s, p + 1)?;
                let constant = read_i8(s, p + 2)?;
                Ok((Instruction::Iinc { index, constant }, p + 3))
            },
            0x15 => {
                let index = read_u8(s, p + 1)?;
                Ok((Instruction::Iload { index }, p + 2))
            },
            0xc1 => {
                let class = class_operand(s, p, pool)?;
                Ok((Instruction::Instanceof { class }, p + 3))
            },
            0xba => {
                if s.len() - p < 5 {
                    return Err(Error::BinaryError(DecodeError::UnexpectedEnd));
                }
                let index = read_u16(s, p + 1)?;
                let d = DynamicInfo::from_u16(index, pool, bootstrap)?;
                Ok((Instruction::Invokedynamic { index: d }, p + 5))
            },
            0xb9 => {
                if s.len() - p < 5 {
                    return Err(Error::BinaryError(DecodeError::UnexpectedEnd));
                }
                let index = read_u16(s, p + 1)?;
                let count = s[p + 3];
                let m = InterfaceMethodRef::from_u16(index, pool)?;
                Ok((Instruction::Invokeinterface { index: m, count }, p + 5))
            },
            0xb7 => {
                let index = read_u16(s, p + 1)?;
                let m = MaybeInterfaceMethodRef::from_u16(index, pool)?;
                Ok((Instruction::Invokespecial { index: m }, p + 3))
            },
            0xb8 => {
                let index = read_u16(s, p + 1)?;
                let m = MaybeInterfaceMethodRef::from_u16(index, pool)?;
                Ok((Instruction::Invokestatic { index: m }, p + 3))
            },
            0xb6 => {
                let index = read_u16(s, p + 1)?;
                let m = MethodRef::from_u16(index, pool)?;
                Ok((Instruction::Invokevirtual { index: m }, p + 3))
            },
            0x36 => {
                let index = read_u8(s, p + 1)?;
                Ok((Instruction::Istore { index }, p + 2))
            },
            0xa8 => {
                let offset = read_i16(s, p + 1)?;
                Ok((Instruction::Jsr { offset }, p + 3))
            },
            0xc9 => {
                let offset = read_i32(s, p + 1)?;
                Ok((Instruction::JsrW { offset }, p + 5))
            },
            0x12 => {
                let index = read_u8(s, p + 1)?;
                Ok((Instruction::Ldc { index }, p + 2))
            },
            0x13 => {
                let index = read_u16(s, p + 1)?;
                Ok((Instruction::LdcW { index }, p + 3))
            },
            0x14 => {
                let index = read_u16(s, p + 1)?;
                Ok((Instruction::Ldc2W { index }, p + 3))
            },
            0x16 => {
                let index = read_u8(s, p + 1)?;
                Ok((Instruction::Lload { index }, p + 2))
            },
            0x37 => {
                let index = read_u8(s, p + 1)?;
                Ok((Instruction::Lstore { index }, p + 2))
            },
            0xc5 => {
                if s.len() - p < 4 {
                    return Err(Error::BinaryError(DecodeError::UnexpectedEnd));
                }
                let dimensions = s[p + 3];
                let class = class_operand(s, p, pool)?;
                Ok((Instruction::Multianewarray { class, dimensions }, p + 4))
            },
            0xbb => {
                let class = class_operand(s, p, pool)?;
                Ok((Instruction::New { class }, p + 3))
            },
            0xbc => {
                let atype = read_u8(s, p + 1)?;
                Ok((Instruction::Newarray { atype }, p + 2))
            },
            0xb5 => {
                let index = read_u16(s, p + 1)?;
                let field = FieldRef::from_u16(index, pool)?;
                Ok((Instruction::Putfield { field }, p + 3))
            },
            0xb3 => {
                let index = read_u16(s, p + 1)?;
                let field = FieldRef::from_u16(index, pool)?;
                Ok((Instruction::Putstatic { field }, p + 3))
            },
            0xa9 => {
                let index = read_u8(s, p + 1)?;
                Ok((Instruction::Ret { index }, p + 2))
            },
            0x11 => {
                let value = read_i16(s, p + 1)? as i32;
                Ok((Instruction::Sipush { value }, p + 3))
            },
            _ => Err(Error::BinaryError(DecodeError::UnknownOpcode(op))),
        }
    }
}

fn class_operand(s: &[u8], p: usize, pool: &ConstantPool) -> (r: Result<Vec<u8>, Error>)
    requires
        pool.wf(),
    ensures
        match r {
            Ok(c) => p + 3 <= s@.len() && class_name_at(*pool, be16(s@, p + 1) as u16) == Ok::<Seq<u8>, Error>(c@),
            Err(e) => (p + 3 > s@.len() && e == truncated()) || (p + 3 <= s@.len() && class_name_at(*pool, be16(s@, p + 1) as u16) == Err::<Seq<u8>, Error>(e)),
        },
{
    if p >= s.len() || s.len() - p < 3 {
        return Err(Error::BinaryError(DecodeError::UnexpectedEnd));
    }
    let index = read_u16(s, p + 1)?;
    let name = ClassIndex(index).get_as_string(pool)?;
    Ok(vstd::slice::slice_to_vec(name))
}

fn parse_tableswitch(s: &[u8], p: usize) -> (r: Result<(Instruction, usize), Error>)
    requires
        p < s@.len(),
        s@[p as int] == 0xaa,
    ensures
        match r {
            Ok((i, q)) => insn_end(s@, p as int) == Some(q as int) && i is Tableswitch && operands_ok(i, s@, p as int),
            Err(e) => insn_end(s@, p as int) is None && e == insn_error(s@, p as int),
        },
{
    if s.len() - p < 4 {
        return Err(Error::BinaryError(DecodeError::UnexpectedEnd));
    }
    let q = BytePad::skip(p + 1);
    if q > s.len() || s.len() - q < 12 {
        return Err(Error::BinaryError(DecodeError::UnexpectedEnd));
    }
    let default = read_i32(s, q)?;
    let low = read_i32(s, q + 4)?;
    let high = read_i32(s, q + 8)?;
    if high < low {
        return Err(Error::BinaryError(DecodeError::BadSwitchBounds));
    }
    let n: u64 = (high as i64 - low as i64 + 1) as u64;
    if (((s.len() - (q + 12)) / 4) as u64) < n {
        return Err(Error::BinaryError(DecodeError::UnexpectedEnd));
    }
    let n = n as usize;
    let mut jump_offsets: Vec<i32> = Vec::new();
    let mut k: usize = 0;
    while k < n
        invariant
            q + 12 + 4 * n <= s@.len(),
            s@.len() <= usize::MAX,
            k <= n,
            jump_offsets@.len() == k,
            forall|j: int| 0 <= j < k ==> #[trigger] jump_offsets@[j] as int == signed32(be32(s@, q + 12 + 4 * j)),
        decreases n - k,
    {
        let v = read_i32(s, q + 12 + 4 * k).unwrap();
        jump_offsets.push(v);
        k = k + 1;
    }
    Ok((Instruction::Tableswitch { default, low, high, jump_offsets }, q + 12 + 4 * n))
}

fn parse_lookupswitch(s: &[u8], p: usize) -> (r: Result<(Instruction, usize), Error>)
    requires
        p < s@.len(),
        s@[p as int] == 0xab,
    ensures
        match r {
            Ok((i, q)) => insn_end(s@, p as int) == Some(q as int) && i is Lookupswitch && operands_ok(i, s@, p as int),
            Err(e) => insn_end(s@, p as int) is None && e == insn_error(s@, p as int),
        },
{
    if s.len() - p < 4 {
        return Err(Error::BinaryError(DecodeError::UnexpectedEnd));
    }
    let q = BytePad::skip(p + 1);
    if q > s.len() || s.len() - q < 8 {
        return Err(Error::BinaryError(DecodeError::UnexpectedEnd));
    }
    let default = read_i32(s, q)?;
    let npairs = read_u32(s, q + 4)?;
    if (((s.len() - (q + 8)) / 8) as u64) < npairs as u64 {
        return Err(Error::BinaryError(DecodeError::UnexpectedEnd));
    }
    let n = npairs as usize;
    let mut pairs: Vec<(i32, i32)> = Vec::new();
    let mut k: usize = 0;
    while k < n
        invariant
            q + 8 + 8 * n <= s@.len(),
            s@.len() <= usize::MAX,
            k <= n,
            pairs@.len() == k,
            forall|j: int| 0 <= j < k ==> #[trigger] pairs@[j].0 as int == signed32(be32(s@, q + 8 + 8 * j))
                && pairs@[j].1 as int == signed32(be32(s@, q + 12 + 8 * j)),
        decreases n - k,
    {
        let key = read_i32(s, q + 8 + 8 * k).unwrap();
        let offset = read_i32(s, q + 12 + 8 * k).unwrap();
        pairs.push((key, offset));
        k = k + 1;
    }
    Ok((Instruction::Lookupswitch { default, pairs }, q + 8 + 8 * n))
}

fn parse_wide(s: &[u8], p: usize) -> (r: Result<(Instruction, usize), Error>)
    requires
        p < s@.len(),
        s@[p as int] == 0xc4,
    ensures
        match r {
            Ok((i, q)) => insn_end(s@, p as int) == Some(q as int) && i is Wide && operands_ok(i, s@, p as int),
            Err(e) => insn_end(s@, p as int) is None && e == insn_error(s@, p as int),
        },
{
    if s.len() - p < 4 {
        return Err(Error::BinaryError(DecodeError::UnexpectedEnd));
    }
    let opcode = s[p + 1];
    let index = read_u16(s, p + 2)?;
    if opcode == 0x84 {
        if s.len() - p < 6 {
            return Err(Error::BinaryError(DecodeError::UnexpectedEnd));
        }
        let constant = read_u16(s, p + 4)?;
        Ok((Instruction::Wide { opcode, index, constant: Some(constant) }, p + 6))
    } else {
        Ok((Instruction::Wide { opcode, index, constant: None }, p + 4))
    }
}

/// Whether the instructions from `p` on tile the rest of `s` exactly.
pub open spec fn stream_ok(s: Seq<u8>, p: int) -> bool
    decreases s.len() - p,
{
    if p < 0 || p >= s.len() {
        p == s.len()
    } else {
        match insn_end(s, p) {
            Some(q) => p < q && stream_ok(s, q),
            None => false,
        }
    }
}

/// The start positions of the instructions from `p` on.
pub open spec fn starts(s: Seq<u8>, p: int) -> Seq<int>
    decreases s.len() - p,
{
    if p < 0 || p >= s.len() {
        seq![]
    } else {
        match insn_end(s, p) {
            Some(q) => if p < q {
                seq![p] + starts(s, q)
            } else {
                seq![]
            },
            None => seq![],
        }
    }
}

/// Decodes a whole code array, instruction by instruction. It succeeds only
/// if the instructions tile the array exactly and every operand resolves.
pub fn decode_all(s: &[u8], pool: &ConstantPool, bootstrap: Option<&[u8]>) -> (r: Result<Vec<Instruction>, Error>)
    requires
        pool.wf(),
    ensures
        r is Ok ==> stream_ok(s@, 0),
        match r {
            Ok(v) => {
                &&& v@.len() == starts(s@, 0).len()
                &&& forall|k: int| 0 <= k < v@.len() ==> {
                    let p = #[trigger] starts(s@, 0)[k];
                    &&& opcode_of(v@[k]) == s@[p]
                    &&& operands_ok(v@[k], s@, p)
                    &&& resolved_ok(v@[k], s@, p, *pool, bytes_opt(bootstrap))
                }
            },
            Err(e) => {
                ||| (stream_stop(s@, 0) < s@.len() && e == insn_error(s@, stream_stop(s@, 0)))
                ||| exists|k: int|
                    0 <= k < starts(s@, 0).len() && operand_error(s@, #[trigger] starts(s@, 0)[k], *pool, bytes_opt(bootstrap), e)
            },
        },
{
    let mut out: Vec<Instruction> = Vec::new();
    let mut pos: usize = 0;
    let ghost mut done: Seq<int> = seq![];
    while pos < s.len()
        invariant
            pool.wf(),
            pos <= s@.len(),
            stream_ok(s@, 0) == stream_ok(s@, pos as int),
            stream_stop(s@, 0) == stream_stop(s@, pos as int),
            starts(s@, 0) == done + starts(s@, pos as int),
            out@.len() == done.len(),
            forall|k: int| 0 <= k < out@.len() ==> {
                let p = #[trigger] done[k];
                &&& opcode_of(out@[k]) == s@[p]
                &&& operands_ok(out@[k], s@, p)
                &&& resolved_ok(out@[k], s@, p, *pool, bytes_opt(bootstrap))
            },
        decreases s.len() - pos,
    {
        let (i, q) = match Instruction::parse(s, pos, pool, bootstrap) {
            Ok(x) => x,
            Err(e) => {
                proof {
                    assert(parse_outcome(s@, pos as int, *pool, bytes_opt(bootstrap), Err::<(Instruction, usize), Error>(e)));
                    if insn_end(s@, pos as int) is Some {
                        let k = done.len() as int;
                        assert(starts(s@, 0)[k] == pos);
                    }
                }
                return Err(e);
            },
        };
        proof {
            assert(starts(s@, pos as int) == seq![pos as int] + starts(s@, q as int));
            assert(done + starts(s@, pos as int) =~= done.push(pos as int) + starts(s@, q as int));
        }
        out.push(i);
        proof {
            done = done.push(pos as int);
        }
        pos = q;
    }
    proof {
        assert(done + starts(s@, pos as int) =~= done);
    }
    Ok(out)
}

/// How the end of the instruction at `p` changes when `s` is cut at `k`.
proof fn lemma_insn_end_prefix(s: Seq<u8>, p: int, k: int)
    requires
        0 <= p < k <= s.len(),
        insn_end(s, p) is Some,
    ensures
        insn_end(s, p)->0 <= k ==> insn_end(s.take(k), p) == insn_end(s, p),
        insn_end(s, p)->0 > k ==> insn_end(s.take(k), p) is None,
{
    let t = s.take(k);
    assert(t[p] == s[p]);
    let q = p + 1 + pad_len(p + 1);
    if s[p] == 0xaa || s[p] == 0xab {
        if q + 12 <= k {
            assert(t[q + 4] == s[q + 4] && t[q + 5] == s[q + 5] && t[q + 6] == s[q + 6] && t[q + 7] == s[q + 7]);
            assert(t[q + 8] == s[q + 8] && t[q + 9] == s[q + 9] && t[q + 10] == s[q + 10] && t[q + 11] == s[q + 11]);
        } else if q + 8 <= k {
            assert(t[q + 4] == s[q + 4] && t[q + 5] == s[q + 5] && t[q + 6] == s[q + 6] && t[q + 7] == s[q + 7]);
        }
    } else if s[p] == 0xc4 {
        if p + 1 < k {
            assert(t[p + 1] == s[p + 1]);
        }
    }
}

proof fn lemma_cut_stream(s: Seq<u8>, p: int, k: int)
    requires
        0 <= p <= k < s.len(),
        stream_ok(s, p),
        !starts(s, p).contains(k),
    ensures
        !stream_ok(s.take(k), p),
    decreases s.len() - p,
{
    let t = s.take(k);
    let q = insn_end(s, p)->0;
    assert(starts(s, p) == seq![p] + starts(s, q));
    if p == k {
        assert(starts(s, p)[0] == k);
        assert(starts(s, p).contains(k));
    } else {
        lemma_insn_end_prefix(s, p, k);
        if q < k {
            assert forall|j: int| 0 <= j < starts(s, q).len() implies starts(s, q)[j] != k by {
                assert(starts(s, p)[j + 1] == starts(s, q)[j]);
            }
            lemma_cut_stream(s, q, k);
        } else if q == k {
            assert(starts(s, q) == seq![q] + starts(s, insn_end(s, q)->0));
            assert(starts(s, p)[1] == k);
            assert(starts(s, p).contains(k));
        }
    }
}

/// A code array cut inside an instruction no longer decodes: where the
/// instructions of `s` tile it exactly, a prefix of `s` that ends strictly
/// inside one of them is not tiled, so `decode_all`, which succeeds only on
/// tiled arrays, fails on it.
pub proof fn lemma_truncated_stream_fails(s: Seq<u8>, k: int)
    requires
        stream_ok(s, 0),
        0 < k < s.len(),
        !starts(s, 0).contains(k),
    ensures
        !stream_ok(s.take(k), 0),
{
    lemma_cut_stream(s, 0, k);
}

/// The bootstrap method index an InvokeDynamic entry at `index` names.
pub open spec fn call_site_bootstrap_index(pool: ConstantPool, index: u16) -> Option<u16> {
    match pool.entry_at(index) {
        Ok(crate::pool::ConstantPoolItem::InvokeDynamic { bootstrap_method_attr_index, .. }) => Some(bootstrap_method_attr_index.0),
        _ => None,
    }
}

/// An `invokedynamic` whose call site resolves fails with
/// `NoBootstrapMethods` in a class without a BootstrapMethods attribute, and
/// with `InvalidBootstrapIndex` of the call site's index where that index is
/// past the end of the class's table.
pub proof fn lemma_invokedynamic_bootstrap_errors(
    s: Seq<u8>,
    p: int,
    pool: ConstantPool,
    bootstrap: Option<Seq<u8>>,
    r: Result<(Instruction, usize), Error>,
)
    requires
        0 <= p,
        p + 5 <= s.len(),
        s[p] == 0xba,
        call_site_bootstrap_index(pool, be16(s, p + 1) as u16) is Some,
        parse_outcome(s, p, pool, bootstrap, r),
    ensures
        bootstrap is None ==> r == Err::<(Instruction, usize), Error>(Error::NoBootstrapMethods),
        bootstrap matches Some(b) ==> (crate::refs::bootstrap_spec(b) matches Ok(t) ==> (
            call_site_bootstrap_index(pool, be16(s, p + 1) as u16)->0 >= t.len() ==> r == Err::<(Instruction, usize), Error>(
                Error::InvalidBootstrapIndex(call_site_bootstrap_index(pool, be16(s, p + 1) as u16)->0),
            ))),
{
    assert(fixed_operand_len(0xba) == 4);
    assert(insn_end(s, p) == Some(p + 5));
}

} // verus!
