use java_class_format::descriptor::TypeDescriptor;
use java_class_format::error::{DecodeError, Error};
use java_class_format::pool::ClassIndex;
use java_class_format::signature::{JavaType, ReferenceType, TypeArgument};
use java_class_format::stack_map::StackMapFrame;
use java_class_format::ClassFile;

fn u16be(v: u16) -> Vec<u8> {
    v.to_be_bytes().to_vec()
}

fn utf8(s: &str) -> Vec<u8> {
    let mut v = vec![1u8];
    v.extend(u16be(s.len() as u16));
    v.extend(s.as_bytes());
    v
}

fn attribute(name_index: u16, info: &[u8]) -> Vec<u8> {
    let mut v = u16be(name_index);
    v.extend((info.len() as u32).to_be_bytes());
    v.extend(info);
    v
}

const NAMES: [&str; 20] = [
    "p/Box",                              // 1
    "java/lang/Object",                   // 3 (2 is Class #1)
    "get",                                // 5 (4 is Class #3)
    "()Ljava/lang/Object;",               // 6
    "Code",                               // 7
    "Signature",                          // 8
    "<T:Ljava/lang/Object;>Ljava/lang/Object;", // 9
    "()TT;",                              // 10
    "value",                              // 11
    "TT;",                                // 12
    "SourceFile",                         // 13
    "Box.java",                           // 14
    "LineNumberTable",                    // 15
    "LocalVariableTable",                 // 16
    "this",                               // 17
    "Lp/Box;",                            // 18
    "InnerClasses",                       // 19
    "EnclosingMethod",                    // 20
    "StackMapTable",                      // 21
    "Ljava/util/List<*>;",                // 22
];

fn pool() -> (u16, Vec<u8>) {
    let mut p = Vec::new();
    p.extend(utf8(NAMES[0]));
    p.push(7);
    p.extend(u16be(1));
    p.extend(utf8(NAMES[1]));
    p.push(7);
    p.extend(u16be(3));
    for n in &NAMES[2..] {
        p.extend(utf8(n));
    }
    (23, p)
}

fn class_bytes() -> Vec<u8> {
    let mut v = vec![0xca, 0xfe, 0xba, 0xbe, 0, 3, 0, 45];
    let (count, p) = pool();
    v.extend(u16be(count));
    v.extend(p);
    v.extend(u16be(0x0001));
    v.extend(u16be(2));
    v.extend(u16be(4));
    v.extend(u16be(1));
    v.extend(u16be(4));
    // one field `value` with a generic signature
    v.extend(u16be(1));
    v.extend(u16be(0x0002 | 0x0100));
    v.extend(u16be(11));
    v.extend(u16be(3 + 15));
    v.extend(u16be(1));
    v.extend(attribute(8, &u16be(22)));
    // one method `get` with Code (LineNumberTable, LocalVariableTable, StackMapTable) and Signature
    v.extend(u16be(1));
    v.extend(u16be(0x0001));
    v.extend(u16be(5));
    v.extend(u16be(6));
    v.extend(u16be(2));
    let mut code = u16be(1);
    code.extend(u16be(1));
    code.extend(2u32.to_be_bytes());
    code.extend([0x2a, 0xb0]);
    code.extend(u16be(1));
    code.extend(u16be(0));
    code.extend(u16be(1));
    code.extend(u16be(1));
    code.extend(u16be(0));
    let mut lines = u16be(1);
    lines.extend(u16be(0));
    lines.extend(u16be(7));
    let mut locals = u16be(1);
    for x in [0u16, 2, 17, 18, 0] {
        locals.extend(u16be(x));
    }
    code.extend(u16be(3));
    code.extend(attribute(15, &lines));
    code.extend(attribute(16, &locals));
    code.extend(attribute(21, &[0, 1, 0]));
    v.extend(attribute(7, &code));
    v.extend(attribute(8, &u16be(10)));
    // class attributes
    v.extend(u16be(4));
    v.extend(attribute(8, &u16be(9)));
    v.extend(attribute(13, &u16be(14)));
    let mut inner = u16be(1);
    for x in [2u16, 4, 0, 0x0008] {
        inner.extend(u16be(x));
    }
    v.extend(attribute(19, &inner));
    let mut enclosing = u16be(4);
    enclosing.extend(u16be(0));
    v.extend(attribute(20, &enclosing));
    v
}

#[test]
fn class_level_attributes() {
    let cf = ClassFile::parse(class_bytes()).unwrap();
    assert_eq!(cf.minor_version, 3);
    assert_eq!(cf.this_class().unwrap(), b"p/Box");
    assert_eq!(cf.interfaces().unwrap(), vec![&b"java/lang/Object"[..]]);
    assert_eq!(cf.source_file().unwrap(), Some(&b"Box.java"[..]));
    let sig = cf.signature().unwrap().unwrap();
    assert_eq!(sig.type_parameters.len(), 1);
    assert_eq!(sig.type_parameters[0].name, b"T".to_vec());
    assert_eq!(sig.superclass_signature.base.name, b"Object".to_vec());
    let inner = cf.inner_classes().unwrap().unwrap();
    assert_eq!(inner.classes.len(), 1);
    assert_eq!(inner.classes[0].outer_class_info, Some(ClassIndex(4)));
    assert!(inner.classes[0].inner_name.is_none());
    let em = cf.enclosing_method().unwrap().unwrap();
    assert_eq!(em.class_index, ClassIndex(4));
    assert_eq!(em.method_index.0, 0);
    assert!(cf.bootstrap_methods().unwrap().is_none());
}

#[test]
fn field_signature_and_missing_constant() {
    let cf = ClassFile::parse(class_bytes()).unwrap();
    let fields = cf.fields();
    assert_eq!(fields[0].identifier().unwrap(), b"value");
    assert!(matches!(fields[0].descriptor().unwrap(), TypeDescriptor::ClassName(_)));
    assert!(fields[0].constant_value().unwrap().is_none());
    match fields[0].signature().unwrap().unwrap() {
        ReferenceType::ClassType(c) => {
            assert_eq!(c.base.name, b"List".to_vec());
            assert!(matches!(c.base.type_arguments[0], TypeArgument::Star));
        },
        other => panic!("unexpected {:?}", other),
    }
    assert_eq!(cf.fields[0].access_flags.0, 0x0002);
}

#[test]
fn method_signature_and_code_tables() {
    let cf = ClassFile::parse(class_bytes()).unwrap();
    let methods = cf.methods();
    let m = &methods[0];
    assert!(!m.is_native());
    assert!(m.exceptions().unwrap().is_none());
    let sig = m.signature().unwrap().unwrap();
    assert!(sig.parameters.is_empty());
    match sig.result {
        Some(JavaType::Reference(ReferenceType::TypeVariable(v))) => assert_eq!(v, b"T".to_vec()),
        other => panic!("unexpected {:?}", other),
    }
    let code = m.code().unwrap().unwrap();
    assert_eq!(code.exception_table.len(), 1);
    assert_eq!(code.exception_table[0].end_pc, 1);
    assert_eq!(code.exception_table[0].catch_type, None);
    let lines = code.line_number_table().unwrap().unwrap();
    assert_eq!(lines.line_number_table, vec![(0, 7)]);
    let locals = code.local_variable_table().unwrap().unwrap();
    let vars = locals.get_variables(&cf.constant_pool).unwrap();
    assert_eq!(vars.len(), 1);
    assert_eq!(vars[0].name, b"this".to_vec());
    match &vars[0].descriptor {
        TypeDescriptor::ClassName(n) => assert_eq!(n, &b"p/Box".to_vec()),
        other => panic!("unexpected {:?}", other),
    }
    assert!(code.local_variable_type_table().unwrap().is_none());
    let frames = code.stack_map_table().unwrap().unwrap();
    assert!(matches!(frames.entries[0], StackMapFrame::SameFrame { offset_delta: 0 }));
    assert_eq!(code.instructions(&cf).unwrap().len(), 2);
}

#[test]
fn malformed_method_signature_is_text_error() {
    let mut bytes = class_bytes();
    // Break the method's signature "()TT;" into "()TTX", which the grammar rejects.
    let cf = ClassFile::parse(bytes.clone()).unwrap();
    let methods = cf.methods();
    assert!(methods[0].descriptor().is_ok());
    let pos = bytes.windows(3).position(|w| w == b"TT;").unwrap();
    bytes[pos + 2] = b'X';
    let cf = ClassFile::parse(bytes).unwrap();
    let fields = cf.fields();
    assert!(fields[0].signature().is_ok());
    let methods = cf.methods();
    assert_eq!(methods[0].signature().unwrap_err(), Error::TextError);
}

#[test]
fn truncated_attribute_payload() {
    let cf = ClassFile::parse(class_bytes()).unwrap();
    assert_eq!(
        java_class_format::attributes::SourceFile::parse(&[0]).unwrap_err(),
        Error::BinaryError(DecodeError::UnexpectedEnd)
    );
    assert!(java_class_format::code::Code::parse(&[0, 1, 0, 1, 0, 0, 0, 9, 0], &cf.constant_pool).is_err());
}
