use java_class_format::class::ClassFile;
use java_class_format::descriptor::TypeDescriptor;
use java_class_format::error::{DecodeError, EntryKind, Error, PoolError};
use java_class_format::flags::{ClassAccessFlags, MethodAccessFlags, ACC_NATIVE, ACC_PUBLIC};
use java_class_format::instruction::Instruction;
use java_class_format::pool::{ClassIndex, ConstantPoolItem, Utf8Index};
use java_class_format::refs::{MaybeInterfaceMethodRef, MethodHandle};

fn u16be(v: u16) -> Vec<u8> {
    v.to_be_bytes().to_vec()
}

fn utf8(s: &str) -> Vec<u8> {
    let mut v = vec![1u8];
    v.extend(u16be(s.len() as u16));
    v.extend(s.as_bytes());
    v
}

fn entry(tag: u8, operands: &[u16]) -> Vec<u8> {
    let mut v = vec![tag];
    for o in operands {
        v.extend(u16be(*o));
    }
    v
}

fn attribute(name_index: u16, info: &[u8]) -> Vec<u8> {
    let mut v = u16be(name_index);
    v.extend((info.len() as u32).to_be_bytes());
    v.extend(info);
    v
}

fn code_attribute(code: &[u8]) -> Vec<u8> {
    let mut v = u16be(2);
    v.extend(u16be(3));
    v.extend((code.len() as u32).to_be_bytes());
    v.extend(code);
    v.extend(u16be(0));
    v.extend(u16be(0));
    v
}

/// Pool layout used by these tests (logical indices):
///  1 Utf8 "com/example/Bar$Baz"   2 Class #1
///  3 Utf8 "java/lang/Object"      4 Class #3
///  5 Utf8 "foo"                   6 Utf8 "()V"
///  7 Utf8 "Code"                  8 Integer 42
///  9 Long 0x0102030405060708 (10 is its second slot)
/// 11 Utf8 "x"                    12 Utf8 "I"
/// 13 NameAndType #5 #6           14 Methodref #2 #13
/// 15 MethodHandle kind 6 -> #14   16 InvokeDynamic bsm 0, #13
/// 17 Utf8 "BootstrapMethods"     18 Utf8 "ConstantValue"
/// 19 String #11                  20 InvokeDynamic bsm 5, #13
fn pool_bytes() -> (u16, Vec<u8>) {
    let mut p = Vec::new();
    p.extend(utf8("com/example/Bar$Baz"));
    p.extend(entry(7, &[1]));
    p.extend(utf8("java/lang/Object"));
    p.extend(entry(7, &[3]));
    p.extend(utf8("foo"));
    p.extend(utf8("()V"));
    p.extend(utf8("Code"));
    p.push(3);
    p.extend(42i32.to_be_bytes());
    p.push(5);
    p.extend(0x0102030405060708i64.to_be_bytes());
    p.extend(utf8("x"));
    p.extend(utf8("I"));
    p.extend(entry(12, &[5, 6]));
    p.extend(entry(10, &[2, 13]));
    p.push(15);
    p.push(6);
    p.extend(u16be(14));
    p.extend(entry(18, &[0, 13]));
    p.extend(utf8("BootstrapMethods"));
    p.extend(utf8("ConstantValue"));
    p.extend(entry(8, &[11]));
    p.extend(entry(18, &[5, 13]));
    (21, p)
}

/// A class with one field `x:I = 42` and one native-flagged method
/// `foo()V` whose code is `code`, optionally with a BootstrapMethods table.
fn class_bytes(code: &[u8], with_bootstrap: bool) -> Vec<u8> {
    let mut v = vec![0xca, 0xfe, 0xba, 0xbe, 0, 0, 0, 52];
    let (count, pool) = pool_bytes();
    v.extend(u16be(count));
    v.extend(pool);
    v.extend(u16be(0x0021 | 0x0800));
    v.extend(u16be(2));
    v.extend(u16be(4));
    v.extend(u16be(0));
    v.extend(u16be(1));
    v.extend(u16be(0x0001));
    v.extend(u16be(11));
    v.extend(u16be(12));
    v.extend(u16be(1));
    v.extend(attribute(18, &u16be(8)));
    v.extend(u16be(1));
    v.extend(u16be(ACC_PUBLIC | ACC_NATIVE));
    v.extend(u16be(5));
    v.extend(u16be(6));
    v.extend(u16be(1));
    v.extend(attribute(7, &code_attribute(code)));
    if with_bootstrap {
        v.extend(u16be(1));
        let mut table = u16be(1);
        table.extend(u16be(15));
        table.extend(u16be(0));
        v.extend(attribute(17, &table));
    } else {
        v.extend(u16be(0));
    }
    v
}

#[test]
fn parses_names_and_flags() {
    let cf = ClassFile::parse(class_bytes(&[0xb1], false)).unwrap();
    assert_eq!(cf.major_version, 52);
    assert_eq!(cf.this_class().unwrap(), b"com/example/Bar$Baz");
    assert_eq!(cf.super_class().unwrap(), b"java/lang/Object");
    assert!(cf.interfaces().unwrap().is_empty());
    assert_eq!(cf.access_flags, ClassAccessFlags(0x0021));
    let methods = cf.methods();
    assert_eq!(methods.len(), 1);
    assert_eq!(methods[0].identifier().unwrap(), b"foo");
    assert!(methods[0].is_native());
    let d = methods[0].descriptor().unwrap();
    assert!(d.parameter_types().is_empty());
    assert!(d.return_type().is_none());
    let fields = cf.fields();
    assert_eq!(fields.len(), 1);
    assert_eq!(fields[0].identifier().unwrap(), b"x");
    assert!(matches!(fields[0].descriptor().unwrap(), TypeDescriptor::Int));
}

#[test]
fn native_binding_name() {
    let cf = ClassFile::parse(class_bytes(&[0xb1], false)).unwrap();
    let methods = cf.methods();
    assert_eq!(methods[0].jni_identifier().unwrap(), b"Java_com_example_Bar_Baz_foo".to_vec());
}

#[test]
fn constant_value_of_field() {
    let cf = ClassFile::parse(class_bytes(&[0xb1], false)).unwrap();
    let fields = cf.fields();
    let cv = fields[0].constant_value().unwrap().unwrap();
    assert_eq!(cv.constantvalue_index, 8);
    assert_eq!(cv.int_value(&cf.constant_pool).unwrap(), 42);
    assert_eq!(
        cv.long_value(&cf.constant_pool),
        Err(Error::ConstantPoolError(PoolError::Mismatch {
            index: 8,
            expected: EntryKind::Long,
            found: EntryKind::Integer,
        }))
    );
}

#[test]
fn pool_round_trip() {
    let cf = ClassFile::parse(class_bytes(&[0xb1], false)).unwrap();
    let pool = &cf.constant_pool;
    assert_eq!(pool.items.len(), 20);
    assert_eq!(Utf8Index(1).get_as_string(pool).unwrap(), b"com/example/Bar$Baz");
    assert_eq!(ClassIndex(2).get_as_string(pool).unwrap(), b"com/example/Bar$Baz");
    assert_eq!(pool.get(8), Ok(ConstantPoolItem::Integer { value: 42 }));
    assert_eq!(pool.get(9), Ok(ConstantPoolItem::Long { value: 0x0102030405060708 }));
    assert_eq!(Utf8Index(11).get_as_string(pool).unwrap(), b"x");
    let (name, descriptor) = java_class_format::pool::NameAndTypeIndex(13).get(pool).unwrap();
    assert_eq!(name, b"foo");
    assert_eq!(descriptor, b"()V");
}

#[test]
fn long_entry_second_slot_is_padding() {
    let cf = ClassFile::parse(class_bytes(&[0xb1], false)).unwrap();
    let pool = &cf.constant_pool;
    assert_eq!(pool.get(10), Err(Error::ConstantPoolError(PoolError::Padding(10))));
    assert_eq!(Utf8Index(10).get_as_string(pool), Err(Error::ConstantPoolError(PoolError::Padding(10))));
    assert_eq!(Utf8Index(11).get_as_string(pool).unwrap(), b"x");
}

#[test]
fn bad_indices_and_mismatches() {
    let cf = ClassFile::parse(class_bytes(&[0xb1], false)).unwrap();
    let pool = &cf.constant_pool;
    assert_eq!(pool.get(0), Err(Error::ConstantPoolError(PoolError::BadIndex(0))));
    assert_eq!(pool.get(21), Err(Error::ConstantPoolError(PoolError::BadIndex(21))));
    assert_eq!(
        ClassIndex(1).get_as_string(pool),
        Err(Error::ConstantPoolError(PoolError::Mismatch { index: 1, expected: EntryKind::Class, found: EntryKind::Utf8 }))
    );
}

#[test]
fn bad_magic_and_unknown_tag() {
    assert!(matches!(ClassFile::parse(vec![0xca, 0xfe, 0xba, 0xbf, 0, 0, 0, 0, 0, 1]), Err(Error::BinaryError(DecodeError::BadMagic))));
    let bytes = vec![0xca, 0xfe, 0xba, 0xbe, 0, 0, 0, 52, 0, 2, 2, 0, 0];
    assert!(matches!(ClassFile::parse(bytes), Err(Error::BinaryError(DecodeError::UnknownTag(2)))));
    let bytes = vec![0xca, 0xfe, 0xba, 0xbe, 0, 0, 0, 52, 0, 2, 1, 0, 5, b'a'];
    assert!(matches!(ClassFile::parse(bytes), Err(Error::BinaryError(DecodeError::UnexpectedEnd))));
    let bytes = vec![0xca, 0xfe, 0xba, 0xbe, 0, 0, 0, 52, 0, 2, 1, 0, 1, 0xff];
    assert!(matches!(ClassFile::parse(bytes), Err(Error::BinaryError(DecodeError::InvalidUtf8))));
}

#[test]
fn truncated_class_fails() {
    let full = class_bytes(&[0xb1], false);
    for cut in [5usize, 12, 40, full.len() - 1] {
        assert!(ClassFile::parse(full[..cut].to_vec()).is_err());
    }
}

#[test]
fn decodes_simple_code() {
    // iconst_0, istore_1, iinc 1 -1, bipush -3, sipush -2, goto -6, return
    let code = [0x03, 0x3c, 0x84, 1, 0xff, 0x10, 0xfd, 0x11, 0xff, 0xfe, 0xa7, 0xff, 0xfa, 0xb1];
    let cf = ClassFile::parse(class_bytes(&code, false)).unwrap();
    let methods = cf.methods();
    let c = methods[0].code().unwrap().unwrap();
    assert_eq!(c.max_stack, 2);
    assert_eq!(c.max_locals, 3);
    assert_eq!(c.code, code.to_vec());
    let ins = c.instructions(&cf).unwrap();
    assert_eq!(ins.len(), 7);
    assert!(matches!(ins[0], Instruction::Iconst0));
    assert!(matches!(ins[1], Instruction::Istore1));
    assert!(matches!(ins[2], Instruction::Iinc { index: 1, constant: -1 }));
    assert!(matches!(ins[3], Instruction::Bipush { byte: -3 }));
    assert!(matches!(ins[4], Instruction::Sipush { value: -2 }));
    assert!(matches!(ins[5], Instruction::Goto { offset: -6 }));
    assert!(matches!(ins[6], Instruction::Return));
    assert_eq!(ins[6].opcode(), 0xb1);
}

#[test]
fn truncated_code_fails() {
    let pool_cf = ClassFile::parse(class_bytes(&[0xb1], false)).unwrap();
    let pool = &pool_cf.constant_pool;
    let code = [0x03, 0x11, 0x00, 0x05, 0xb1];
    assert_eq!(java_class_format::instruction::decode_all(&code, pool, None).unwrap().len(), 3);
    assert!(java_class_format::instruction::decode_all(&code[..2], pool, None).is_err());
    assert!(java_class_format::instruction::decode_all(&code[..3], pool, None).is_err());
    assert_eq!(java_class_format::instruction::decode_all(&code[..4], pool, None).unwrap().len(), 2);
    assert!(matches!(
        java_class_format::instruction::decode_all(&[0xcb], pool, None),
        Err(Error::BinaryError(DecodeError::UnknownOpcode(0xcb)))
    ));
}

#[test]
fn switch_padding_is_aligned_for_every_start() {
    let pool_cf = ClassFile::parse(class_bytes(&[0xb1], false)).unwrap();
    let pool = &pool_cf.constant_pool;
    for start in 0..4usize {
        let mut code = vec![0u8; start];
        code.push(0xaa);
        while code.len() % 4 != 0 {
            code.push(0);
        }
        code.extend(7i32.to_be_bytes());
        code.extend(1i32.to_be_bytes());
        code.extend(2i32.to_be_bytes());
        code.extend(10i32.to_be_bytes());
        code.extend((-20i32).to_be_bytes());
        let end = code.len();
        let (ins, next) = Instruction::parse(&code, start, pool, None).unwrap();
        assert_eq!(next, end);
        match ins {
            Instruction::Tableswitch { default, low, high, jump_offsets } => {
                assert_eq!((default, low, high), (7, 1, 2));
                assert_eq!(jump_offsets, vec![10, -20]);
            },
            other => panic!("unexpected {:?}", other),
        }
    }
}

#[test]
fn lookupswitch_and_wide() {
    let pool_cf = ClassFile::parse(class_bytes(&[0xb1], false)).unwrap();
    let pool = &pool_cf.constant_pool;
    let mut code = vec![0x00, 0xab, 0, 0];
    code.extend(9i32.to_be_bytes());
    code.extend(2u32.to_be_bytes());
    code.extend(1i32.to_be_bytes());
    code.extend(100i32.to_be_bytes());
    code.extend(5i32.to_be_bytes());
    code.extend(200i32.to_be_bytes());
    code.extend([0xc4, 0x84, 0x01, 0x00, 0x00, 0x10]);
    code.extend([0xc4, 0x15, 0x01, 0x00]);
    let ins = java_class_format::instruction::decode_all(&code, pool, None).unwrap();
    assert_eq!(ins.len(), 4);
    match &ins[1] {
        Instruction::Lookupswitch { default, pairs } => {
            assert_eq!(*default, 9);
            assert_eq!(pairs, &vec![(1, 100), (5, 200)]);
        },
        other => panic!("unexpected {:?}", other),
    }
    assert!(matches!(ins[2], Instruction::Wide { opcode: 0x84, index: 256, constant: Some(16) }));
    assert!(matches!(ins[3], Instruction::Wide { opcode: 0x15, index: 256, constant: None }));
    let bad = [0xaa, 0, 0, 0, 0, 0, 0, 0, 0, 0, 0, 2, 0, 0, 0, 1];
    assert!(matches!(Instruction::parse(&bad, 0, pool, None), Err(Error::BinaryError(DecodeError::BadSwitchBounds))));
}

#[test]
fn resolves_method_reference_operands() {
    let code = [0xb7, 0, 14, 0xb1];
    let cf = ClassFile::parse(class_bytes(&code, false)).unwrap();
    let methods = cf.methods();
    let ins = methods[0].code().unwrap().unwrap().instructions(&cf).unwrap();
    match &ins[0] {
        Instruction::Invokespecial { index: MaybeInterfaceMethodRef::RegularMethod(m) } => {
            assert_eq!(m.class, b"com/example/Bar$Baz".to_vec());
            assert_eq!(m.name, b"foo".to_vec());
            assert!(m.descriptor.return_type().is_none());
        },
        other => panic!("unexpected {:?}", other),
    }
    let bad = [0xb6, 0, 13];
    assert!(matches!(
        java_class_format::instruction::decode_all(&bad, &cf.constant_pool, None),
        Err(Error::ConstantPoolError(PoolError::Mismatch { index: 13, expected: EntryKind::Methodref, found: EntryKind::NameAndType }))
    ));
    let class_op = [0xbb, 0, 4];
    let ins = java_class_format::instruction::decode_all(&class_op, &cf.constant_pool, None).unwrap();
    match &ins[0] {
        Instruction::New { class } => assert_eq!(class, &b"java/lang/Object".to_vec()),
        other => panic!("unexpected {:?}", other),
    }
}

#[test]
fn invokedynamic_without_bootstrap_methods() {
    let code = [0xba, 0, 16, 0, 0, 0xb1];
    let cf = ClassFile::parse(class_bytes(&code, false)).unwrap();
    let methods = cf.methods();
    let c = methods[0].code().unwrap().unwrap();
    assert_eq!(c.instructions(&cf).unwrap_err(), Error::NoBootstrapMethods);
}

#[test]
fn invokedynamic_bootstrap_index_out_of_range() {
    let code = [0xba, 0, 20, 0, 0, 0xb1];
    let cf = ClassFile::parse(class_bytes(&code, true)).unwrap();
    let methods = cf.methods();
    let c = methods[0].code().unwrap().unwrap();
    assert_eq!(c.instructions(&cf).unwrap_err(), Error::InvalidBootstrapIndex(5));
}

#[test]
fn invokedynamic_resolves_bootstrap_method() {
    let code = [0xba, 0, 16, 0, 0, 0xb1];
    let cf = ClassFile::parse(class_bytes(&code, true)).unwrap();
    let methods = cf.methods();
    let ins = methods[0].code().unwrap().unwrap().instructions(&cf).unwrap();
    assert_eq!(ins.len(), 2);
    match &ins[0] {
        Instruction::Invokedynamic { index } => {
            assert_eq!(index.name, b"foo".to_vec());
            assert!(matches!(
                index.bootstrap_method.method,
                MethodHandle::InvokeStatic(MaybeInterfaceMethodRef::RegularMethod(_))
            ));
        },
        other => panic!("unexpected {:?}", other),
    }
    let table = cf.bootstrap_methods().unwrap().unwrap();
    assert_eq!(table.bootstrap_methods.len(), 1);
    assert_eq!(table.get(1, &cf.constant_pool).unwrap_err(), Error::InvalidBootstrapIndex(1));
    assert!(table.get(0, &cf.constant_pool).is_ok());
}

#[test]
fn access_flags_drop_unknown_bits() {
    assert_eq!(MethodAccessFlags::from_bits_truncate(0xffff).0, 0xd1ff);
    assert_eq!(ClassAccessFlags::from_bits_truncate(0x0800).0, 0);
    assert!(MethodAccessFlags(0x0100).contains(ACC_NATIVE));
}

#[test]
fn method_handle_with_unknown_reference_kind() {
    let (pool, end) = java_class_format::pool::ConstantPool::parse(vec![0, 2, 15, 10, 0, 1], 0).unwrap();
    assert_eq!(end, 6);
    assert!(matches!(
        MethodHandle::from_u16(1, &pool),
        Err(Error::ConstantPoolError(PoolError::BadReferenceKind(10)))
    ));
}
