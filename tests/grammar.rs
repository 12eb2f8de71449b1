use java_class_format::descriptor::{MethodDescriptor, TypeDescriptor};
use java_class_format::error::Error;
use java_class_format::signature::{
    BaseType, ClassSignature, JavaType, MethodSignature, ReferenceType, ThrowsSignature, TypeArgument,
};

#[test]
fn descriptor_int() {
    assert!(matches!(TypeDescriptor::from_bytes(b"I"), Ok(TypeDescriptor::Int)));
}

#[test]
fn descriptor_every_primitive() {
    let cases: [(&[u8], fn(&TypeDescriptor) -> bool); 8] = [
        (b"B", |t| matches!(t, TypeDescriptor::Byte)),
        (b"C", |t| matches!(t, TypeDescriptor::Char)),
        (b"D", |t| matches!(t, TypeDescriptor::Double)),
        (b"F", |t| matches!(t, TypeDescriptor::Float)),
        (b"I", |t| matches!(t, TypeDescriptor::Int)),
        (b"J", |t| matches!(t, TypeDescriptor::Long)),
        (b"S", |t| matches!(t, TypeDescriptor::Short)),
        (b"Z", |t| matches!(t, TypeDescriptor::Boolean)),
    ];
    for (text, check) in cases.iter() {
        let t = TypeDescriptor::from_bytes(text).unwrap();
        assert!(check(&t));
    }
}

#[test]
fn descriptor_nested_array() {
    match TypeDescriptor::from_bytes(b"[[I").unwrap() {
        TypeDescriptor::Array(inner) => match *inner {
            TypeDescriptor::Array(inner2) => assert!(matches!(*inner2, TypeDescriptor::Int)),
            other => panic!("unexpected {:?}", other),
        },
        other => panic!("unexpected {:?}", other),
    }
}

#[test]
fn descriptor_string_fast_path() {
    assert!(matches!(TypeDescriptor::from_bytes(b"Ljava/lang/String;"), Ok(TypeDescriptor::String)));
    assert!(matches!(TypeDescriptor::from_bytes(b"Ljava/lang/Class;"), Ok(TypeDescriptor::Class)));
}

#[test]
fn descriptor_class_name() {
    match TypeDescriptor::from_bytes(b"Ljava/util/List;").unwrap() {
        TypeDescriptor::ClassName(n) => assert_eq!(n, b"java/util/List".to_vec()),
        other => panic!("unexpected {:?}", other),
    }
    match TypeDescriptor::from_bytes(b"Ljava/lang/StringBuilder;").unwrap() {
        TypeDescriptor::ClassName(n) => assert_eq!(n, b"java/lang/StringBuilder".to_vec()),
        other => panic!("unexpected {:?}", other),
    }
}

#[test]
fn descriptor_errors() {
    assert!(matches!(TypeDescriptor::from_bytes(b""), Err(Error::TextError)));
    assert!(matches!(TypeDescriptor::from_bytes(b"Q"), Err(Error::TextError)));
    assert!(matches!(TypeDescriptor::from_bytes(b"L;"), Err(Error::TextError)));
    assert!(matches!(TypeDescriptor::from_bytes(b"Ljava/lang/Object"), Err(Error::TextError)));
    assert!(matches!(TypeDescriptor::from_bytes(b"II"), Err(Error::TextError)));
    assert!(matches!(TypeDescriptor::from_bytes(b"["), Err(Error::TextError)));
}

#[test]
fn descriptor_prefix_parse_reports_end() {
    let (t, q) = TypeDescriptor::parse(b"[JI", 0).unwrap();
    assert!(matches!(t, TypeDescriptor::Array(_)));
    assert_eq!(q, 2);
}

#[test]
fn method_descriptor_int_array_void() {
    let m = MethodDescriptor::from_bytes(b"([I)V").unwrap();
    assert_eq!(m.parameter_types().len(), 1);
    match &m.parameter_types()[0] {
        TypeDescriptor::Array(inner) => assert!(matches!(**inner, TypeDescriptor::Int)),
        other => panic!("unexpected {:?}", other),
    }
    assert!(m.return_type().is_none());
}

#[test]
fn method_descriptor_with_return() {
    let m = MethodDescriptor::from_bytes(b"(ILjava/lang/String;[J)Ljava/util/Map;").unwrap();
    assert_eq!(m.parameter_types().len(), 3);
    assert!(matches!(m.parameter_types()[0], TypeDescriptor::Int));
    assert!(matches!(m.parameter_types()[1], TypeDescriptor::String));
    match m.return_type() {
        Some(TypeDescriptor::ClassName(n)) => assert_eq!(n, &b"java/util/Map".to_vec()),
        other => panic!("unexpected {:?}", other),
    }
    let empty = MethodDescriptor::from_bytes(b"()I").unwrap();
    assert_eq!(empty.parameter_types().len(), 0);
    assert!(matches!(empty.return_type(), Some(TypeDescriptor::Int)));
}

#[test]
fn method_descriptor_errors() {
    assert!(matches!(MethodDescriptor::from_bytes(b"(I"), Err(Error::TextError)));
    assert!(matches!(MethodDescriptor::from_bytes(b"I)V"), Err(Error::TextError)));
    assert!(matches!(MethodDescriptor::from_bytes(b"()"), Err(Error::TextError)));
    assert!(matches!(MethodDescriptor::from_bytes(b"()VV"), Err(Error::TextError)));
    assert!(matches!(MethodDescriptor::from_bytes(b"(Q)V"), Err(Error::TextError)));
}

#[test]
fn signature_list_of_string() {
    let t = ReferenceType::from_bytes(b"Ljava/util/List<Ljava/lang/String;>;").unwrap();
    match t {
        ReferenceType::ClassType(c) => {
            assert_eq!(c.package, vec![b"java".to_vec(), b"util".to_vec()]);
            assert_eq!(c.base.name, b"List".to_vec());
            assert!(c.sub.is_empty());
            assert_eq!(c.base.type_arguments.len(), 1);
            assert!(matches!(
                c.base.type_arguments[0],
                TypeArgument::Invariant(ReferenceType::JavaString)
            ));
        },
        other => panic!("unexpected {:?}", other),
    }
}

#[test]
fn signature_wildcards_and_nested_classes() {
    let t = ReferenceType::from_bytes(b"Lp/Outer<*>.Inner<+TT;-Ljava/lang/Class;>;").unwrap();
    match t {
        ReferenceType::ClassType(c) => {
            assert_eq!(c.package, vec![b"p".to_vec()]);
            assert_eq!(c.base.name, b"Outer".to_vec());
            assert!(matches!(c.base.type_arguments[0], TypeArgument::Star));
            assert_eq!(c.sub.len(), 1);
            assert_eq!(c.sub[0].name, b"Inner".to_vec());
            match &c.sub[0].type_arguments[0] {
                TypeArgument::Plus(ReferenceType::TypeVariable(v)) => assert_eq!(v, &b"T".to_vec()),
                other => panic!("unexpected {:?}", other),
            }
            assert!(matches!(c.sub[0].type_arguments[1], TypeArgument::Minus(ReferenceType::JavaClass)));
        },
        other => panic!("unexpected {:?}", other),
    }
}

#[test]
fn signature_array_and_errors() {
    match ReferenceType::from_bytes(b"[[Z").unwrap() {
        ReferenceType::ArrayType(inner) => match *inner {
            JavaType::Reference(ReferenceType::ArrayType(inner2)) => {
                assert!(matches!(*inner2, JavaType::Base(BaseType::Boolean)))
            },
            other => panic!("unexpected {:?}", other),
        },
        other => panic!("unexpected {:?}", other),
    }
    assert!(matches!(ReferenceType::from_bytes(b"I"), Err(Error::TextError)));
    assert!(matches!(ReferenceType::from_bytes(b"Ljava/util/List<>;"), Err(Error::TextError)));
    assert!(matches!(ReferenceType::from_bytes(b"TT"), Err(Error::TextError)));
}

#[test]
fn class_signature_with_type_parameters() {
    let s = ClassSignature::from_bytes(
        b"<T:Ljava/lang/Object;U::Ljava/lang/Comparable<TT;>;>Ljava/lang/Object;Ljava/io/Serializable;",
    )
    .unwrap();
    assert_eq!(s.type_parameters.len(), 2);
    assert_eq!(s.type_parameters[0].name, b"T".to_vec());
    assert!(s.type_parameters[0].class_bound.is_some());
    assert!(s.type_parameters[0].interface_bounds.is_empty());
    assert_eq!(s.type_parameters[1].name, b"U".to_vec());
    assert!(s.type_parameters[1].class_bound.is_none());
    assert_eq!(s.type_parameters[1].interface_bounds.len(), 1);
    assert_eq!(s.superclass_signature.base.name, b"Object".to_vec());
    assert_eq!(s.superinterface_signatures.len(), 1);
    assert_eq!(s.superinterface_signatures[0].base.name, b"Serializable".to_vec());
}

#[test]
fn method_signature_with_throws() {
    let s = MethodSignature::from_bytes(b"<E:Ljava/lang/Exception;>(TE;I)V^Ljava/io/IOException;^TE;").unwrap();
    assert_eq!(s.type_parameters.len(), 1);
    assert_eq!(s.parameters.len(), 2);
    assert!(matches!(s.parameters[1], JavaType::Base(BaseType::Int)));
    assert!(s.result.is_none());
    assert_eq!(s.throws.len(), 2);
    assert!(matches!(s.throws[0], ThrowsSignature::ClassType(_)));
    match &s.throws[1] {
        ThrowsSignature::TypeVariable(v) => assert_eq!(v, &b"E".to_vec()),
        other => panic!("unexpected {:?}", other),
    }
    let r = MethodSignature::from_bytes(b"()Ljava/lang/String;").unwrap();
    assert!(matches!(r.result, Some(JavaType::Reference(ReferenceType::JavaString))));
    assert!(matches!(MethodSignature::from_bytes(b"(I"), Err(Error::TextError)));
}

#[test]
fn class_type_with_nested_segment() {
    let text: &[u8] = b"Lcom/example/Outer<*>.Inner<+Ljava/lang/Number;>;";
    let (c, q) = java_class_format::signature::ClassType::parse(text, 0).unwrap();
    assert_eq!(q, text.len());
    assert_eq!(c.package, vec![b"com".to_vec(), b"example".to_vec()]);
    assert_eq!(c.base.name, b"Outer".to_vec());
    assert!(matches!(c.base.type_arguments[..], [TypeArgument::Star]));
    assert_eq!(c.sub.len(), 1);
    assert_eq!(c.sub[0].name, b"Inner".to_vec());
    match &c.sub[0].type_arguments[..] {
        [TypeArgument::Plus(ReferenceType::ClassType(n))] => {
            assert_eq!(n.package, vec![b"java".to_vec(), b"lang".to_vec()]);
            assert_eq!(n.base.name, b"Number".to_vec());
        },
        other => panic!("unexpected {:?}", other),
    }
}

#[test]
fn method_signature_with_type_parameter_and_throws() {
    let s = MethodSignature::from_bytes(b"<T:Ljava/lang/Object;>(TT;I)V^Ljava/io/IOException;").unwrap();
    assert_eq!(s.type_parameters.len(), 1);
    assert_eq!(s.type_parameters[0].name, b"T".to_vec());
    assert!(matches!(&s.type_parameters[0].class_bound, Some(ReferenceType::ClassType(_))));
    assert!(s.type_parameters[0].interface_bounds.is_empty());
    assert!(matches!(&s.parameters[0], JavaType::Reference(ReferenceType::TypeVariable(v)) if v == b"T"));
    assert!(matches!(s.parameters[1], JavaType::Base(BaseType::Int)));
    assert!(s.result.is_none());
    match &s.throws[..] {
        [ThrowsSignature::ClassType(c)] => assert_eq!(c.base.name, b"IOException".to_vec()),
        other => panic!("unexpected {:?}", other),
    }
}

#[test]
fn class_signature_with_contravariant_interface() {
    let s = ClassSignature::from_bytes(b"<T:Ljava/lang/Object;>Ljava/lang/Object;Ljava/lang/Comparable<-TT;>;").unwrap();
    assert_eq!(s.superclass_signature.base.name, b"Object".to_vec());
    assert_eq!(s.superinterface_signatures.len(), 1);
    let i = &s.superinterface_signatures[0];
    assert_eq!(i.base.name, b"Comparable".to_vec());
    assert!(matches!(&i.base.type_arguments[..], [TypeArgument::Minus(ReferenceType::TypeVariable(v))] if v == b"T"));
}
