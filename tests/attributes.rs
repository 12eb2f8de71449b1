use java_class_format::attributes::{ConstantValue, EnclosingMethod, Exceptions, InnerClasses, LineNumberTable};
use java_class_format::error::{DecodeError, Error};
use java_class_format::locals::LocalVariableTable;
use java_class_format::pool::ClassIndex;
use java_class_format::stack_map::{StackMapFrame, StackMapTable, VerificationTypeInfo};

fn frame(bytes: &[u8]) -> Result<(StackMapFrame, usize), Error> {
    StackMapFrame::parse(bytes, 0)
}

#[test]
fn frame_tag_ranges() {
    assert!(matches!(frame(&[0]), Ok((StackMapFrame::SameFrame { offset_delta: 0 }, 1))));
    assert!(matches!(frame(&[63]), Ok((StackMapFrame::SameFrame { offset_delta: 63 }, 1))));
    assert!(matches!(
        frame(&[64, 1]),
        Ok((StackMapFrame::SameLocals1StackItemFrame { offset_delta: 0, stack: VerificationTypeInfo::Integer }, 2))
    ));
    assert!(matches!(
        frame(&[127, 7, 0, 9]),
        Ok((StackMapFrame::SameLocals1StackItemFrame { offset_delta: 63, stack: VerificationTypeInfo::Object { cpool_index: ClassIndex(9) } }, 4))
    ));
    assert!(matches!(
        frame(&[247, 1, 0, 5]),
        Ok((StackMapFrame::SameLocals1StackItemFrame { offset_delta: 256, stack: VerificationTypeInfo::Null }, 4))
    ));
    assert!(matches!(frame(&[248, 0, 3]), Ok((StackMapFrame::ChopFrame { locals_to_remove: 3, offset_delta: 3 }, 3))));
    assert!(matches!(frame(&[250, 0, 3]), Ok((StackMapFrame::ChopFrame { locals_to_remove: 1, offset_delta: 3 }, 3))));
    assert!(matches!(frame(&[251, 0, 7]), Ok((StackMapFrame::SameFrame { offset_delta: 7 }, 3))));
    match frame(&[253, 0, 2, 4, 8, 0, 1]).unwrap() {
        (StackMapFrame::AppendFrame { offset_delta, locals }, 7) => {
            assert_eq!(offset_delta, 2);
            assert_eq!(locals, vec![VerificationTypeInfo::Long, VerificationTypeInfo::Uninitialized { offset: 1 }]);
        },
        other => panic!("unexpected {:?}", other),
    }
    match frame(&[255, 0, 1, 0, 1, 6, 0, 2, 0, 3]).unwrap() {
        (StackMapFrame::FullFrame { offset_delta, locals, stack }, 10) => {
            assert_eq!(offset_delta, 1);
            assert_eq!(locals, vec![VerificationTypeInfo::UninitializedThis]);
            assert_eq!(stack, vec![VerificationTypeInfo::Top, VerificationTypeInfo::Double]);
        },
        other => panic!("unexpected {:?}", other),
    }
}

#[test]
fn reserved_frame_tags_fail() {
    for tag in 128u8..=246 {
        assert_eq!(frame(&[tag, 0, 0, 0]).unwrap_err(), Error::BinaryError(DecodeError::UnknownFrameType(tag)));
    }
    assert_eq!(frame(&[64, 9]).unwrap_err(), Error::BinaryError(DecodeError::UnknownVerificationType(9)));
    assert_eq!(frame(&[252, 0]).unwrap_err(), Error::BinaryError(DecodeError::UnexpectedEnd));
}

#[test]
fn stack_map_table_counts_frames() {
    let t = StackMapTable::parse(&[0, 2, 5, 251, 0, 9]).unwrap();
    assert_eq!(t.entries.len(), 2);
    assert!(StackMapTable::parse(&[0, 3, 5, 251, 0, 9]).is_err());
}

#[test]
fn fixed_record_attributes() {
    assert_eq!(ConstantValue::parse(&[0, 7]).unwrap().constantvalue_index, 7);
    assert!(ConstantValue::parse(&[0]).is_err());
    let e = Exceptions::parse(&[0, 2, 0, 3, 0, 4]).unwrap();
    assert_eq!(e.exception_index_table, vec![ClassIndex(3), ClassIndex(4)]);
    assert!(Exceptions::parse(&[0, 2, 0, 3]).is_err());
    let lines = LineNumberTable::parse(&[0, 1, 0, 4, 0, 17]).unwrap();
    assert_eq!(lines.line_number_table, vec![(4, 17)]);
    let inner = InnerClasses::parse(&[0, 1, 0, 2, 0, 0, 0, 5, 0xff, 0xff]).unwrap();
    assert_eq!(inner.classes.len(), 1);
    assert_eq!(inner.classes[0].inner_class_info, ClassIndex(2));
    assert_eq!(inner.classes[0].outer_class_info, None);
    assert_eq!(inner.classes[0].inner_name.map(|n| n.0), Some(5));
    assert_eq!(inner.classes[0].inner_class_access_flags.0, 0x761f);
    let em = EnclosingMethod::parse(&[0, 2, 0, 0]).unwrap();
    assert_eq!(em.class_index, ClassIndex(2));
    let lv = LocalVariableTable::parse(&[0, 1, 0, 0, 0, 5, 0, 3, 0, 4, 0, 1]).unwrap();
    assert_eq!(lv.local_variable_table.len(), 1);
    assert_eq!(lv.local_variable_table[0].4, 1);
}
