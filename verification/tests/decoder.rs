use bytes::Bytes;
use vastatrix::class::attribute::attribute_kind_of;
use vastatrix::class::attribute::is_allowed_at;
use vastatrix::class::attribute::read_attributes;
use vastatrix::class::attribute::Attribute;
use vastatrix::class::attribute::AttributeCommon;
use vastatrix::class::attribute::AttributeKind;
use vastatrix::class::attribute::AttributeLocation;
use vastatrix::class::attribute::StackMapFrame;
use vastatrix::class::attribute::VerificationType;
use vastatrix::class::classfile::decode_text;
use vastatrix::class::classfile::read_buffer;
use vastatrix::class::classfile::read_bytes;
use vastatrix::class::classfile::read_u16;
use vastatrix::class::classfile::read_u16s;
use vastatrix::class::classfile::read_u32;
use vastatrix::class::classfile::read_u8;
use vastatrix::class::classfile::ClassError;
use vastatrix::class::classfile::DecodeFailure;
use vastatrix::class::classfile::Failure;
use vastatrix::class::definition::read_pool;
use vastatrix::class::definition::read_pool_entry;
use vastatrix::class::definition::ClassFile;
use vastatrix::class::definition::ConstantsPoolInfo;

fn utf8(text: &str) -> Vec<u8> {
    let mut out = vec![1u8];
    out.extend_from_slice(&(text.len() as u16).to_be_bytes());
    out.extend_from_slice(text.as_bytes());
    out
}

fn failed<T>(error: ClassError, left: usize) -> Result<T, Failure> {
    Err(Failure { error, left })
}

fn refused<T>(error: ClassError, offset: usize) -> Result<T, DecodeFailure> {
    Err(DecodeFailure { error, offset })
}

fn pool_of(names: &[&str]) -> Vec<ConstantsPoolInfo> {
    let mut pool = vec![ConstantsPoolInfo::Dummy];
    for name in names {
        pool.push(ConstantsPoolInfo::Utf8 { length: name.len() as u16, bytes: name.to_string() });
    }
    pool
}

fn common(name: u16, length: u32) -> AttributeCommon {
    AttributeCommon { attribute_name_index: name, attribute_length: length }
}

/// A class file with the pool `pool` of the declared size `count` and nothing
/// else.
fn class_with_pool(count: u16, pool: &[u8]) -> Vec<u8> {
    let mut out = vec![0xCA, 0xFE, 0xBA, 0xBE, 0x00, 0x03, 0x00, 0x3D];
    out.extend_from_slice(&count.to_be_bytes());
    out.extend_from_slice(pool);
    out.extend_from_slice(&[0x00, 0x21, 0x00, 0x01, 0x00, 0x00]);
    out.extend_from_slice(&[0, 0, 0, 0, 0, 0, 0, 0]);
    out
}

#[test]
fn integers_are_read_big_endian_and_the_buffer_moves_on() {
    let mut b = Bytes::from(vec![0x01, 0x02, 0x03, 0x04, 0x05, 0x06, 0x07, 0x08, 0x09]);
    assert_eq!(read_u8(&mut b), Ok(0x01));
    assert_eq!(read_u16(&mut b), Ok(0x0203));
    assert_eq!(read_u32(&mut b), Ok(0x04050607));
    assert_eq!(&b[..], &[0x08, 0x09]);
    assert_eq!(read_u32(&mut b), failed(ClassError::TruncatedInput, 2));
    assert_eq!(read_u16(&mut b), Ok(0x0809));
    assert_eq!(read_u8(&mut b), failed(ClassError::TruncatedInput, 0));
    assert_eq!(read_u16(&mut b), failed(ClassError::TruncatedInput, 0));
}

#[test]
fn bytes_are_split_off_the_front() {
    let mut b = Bytes::from(vec![1, 2, 3, 4, 5]);
    let front = read_buffer(&mut b, 2).unwrap();
    assert_eq!(&front[..], &[1, 2]);
    assert_eq!(&b[..], &[3, 4, 5]);
    assert_eq!(read_bytes(&mut b, 2), Ok(vec![3, 4]));
    assert_eq!(&b[..], &[5]);
    assert_eq!(read_bytes(&mut b, 2), failed(ClassError::TruncatedInput, 1));
    assert!(read_buffer(&mut b, 2).is_err());
    assert_eq!(read_bytes(&mut b, 0), Ok(vec![]));
    assert_eq!(read_bytes(&mut b, 1), Ok(vec![5]));
}

#[test]
fn a_run_of_integers_is_read_in_order() {
    let mut b = Bytes::from(vec![0x00, 0x01, 0xFF, 0xFE, 0x12, 0x34, 0x99]);
    assert_eq!(read_u16s(&mut b, 3), Ok(vec![0x0001, 0xFFFE, 0x1234]));
    assert_eq!(&b[..], &[0x99]);
    assert_eq!(read_u16s(&mut b, 1), failed(ClassError::TruncatedInput, 1));
    assert_eq!(read_u16s(&mut b, 0), Ok(vec![]));
}

#[test]
fn text_of_one_two_and_three_bytes_is_decoded() {
    assert_eq!(decode_text(&b"hello".to_vec()), Ok("hello".to_string()));
    assert_eq!(decode_text(&vec![0xC3, 0xA9]), Ok("\u{e9}".to_string()));
    assert_eq!(decode_text(&vec![0xC0, 0x80]), Ok("\u{0}".to_string()));
    assert_eq!(decode_text(&vec![0xE2, 0x82, 0xAC]), Ok("\u{20ac}".to_string()));
    assert_eq!(decode_text(&vec![0xEF, 0xBF, 0xBF]), Ok("\u{ffff}".to_string()));
    assert_eq!(decode_text(&vec![0x41, 0xDF, 0xBF, 0x42]), Ok("A\u{7ff}B".to_string()));
    assert_eq!(decode_text(&vec![]), Ok(String::new()));
}

#[test]
fn malformed_text_is_refused() {
    assert_eq!(decode_text(&vec![0x80]), failed(ClassError::MalformedUTF8Codepoint(0x80), 1));
    assert_eq!(
        decode_text(&vec![0x41, 0xF0, 0x90]),
        failed(ClassError::MalformedUTF8Codepoint(0xF0), 2)
    );
    assert_eq!(
        decode_text(&vec![0xC3, 0x41]),
        failed(ClassError::MalformedUTF8Codepoint(0x41), 2)
    );
    assert_eq!(
        decode_text(&vec![0xE2, 0x82, 0x41]),
        failed(ClassError::MalformedUTF8Codepoint(0x41), 3)
    );
    assert_eq!(
        decode_text(&vec![0xE2, 0xC2, 0xAC]),
        failed(ClassError::MalformedUTF8Codepoint(0xC2), 3)
    );
    assert_eq!(
        decode_text(&vec![0x41, 0x42, 0xED, 0xA0, 0x80, 0x43]),
        failed(ClassError::MalformedUTF8Codepoint(0xD800), 4)
    );
}

#[test]
fn text_that_ends_inside_a_character_is_incomplete() {
    assert_eq!(
        decode_text(&vec![0x41, 0xC3]),
        failed(ClassError::IncompleteUTF8Codepoint(0xC3), 1)
    );
    assert_eq!(
        decode_text(&vec![0xE2, 0x82]),
        failed(ClassError::IncompleteUTF8Codepoint(0xE2), 2)
    );
    assert_eq!(decode_text(&vec![0xE2]), failed(ClassError::IncompleteUTF8Codepoint(0xE2), 1));
}

#[test]
fn every_pool_tag_has_its_entry() {
    let cases: Vec<(Vec<u8>, &str)> = vec![
        (utf8("hi"), "Utf8 { length: 2, bytes: \"hi\" }"),
        (vec![3, 0xFF, 0xFF, 0xFF, 0xFE], "Integer { bytes: 4294967294 }"),
        (vec![4, 0x3F, 0x80, 0, 0], "Float { bytes: 1065353216 }"),
        (vec![5, 0, 0, 0, 1, 0, 0, 0, 2], "Long { high_bytes: 1, low_bytes: 2 }"),
        (vec![6, 0, 0, 0, 3, 0, 0, 0, 4], "Double { high_bytes: 3, low_bytes: 4 }"),
        (vec![7, 0x01, 0x02], "Class { name_index: 258 }"),
        (vec![8, 0, 9], "String { string_index: 9 }"),
        (vec![9, 0, 1, 0, 2], "FieldRef { class_index: 1, name_and_type_index: 2 }"),
        (vec![10, 0, 3, 0, 4], "MethodRef { class_index: 3, name_and_type_index: 4 }"),
        (vec![11, 0, 5, 0, 6], "InterfaceMethodRef { class_index: 5, name_and_type_index: 6 }"),
        (vec![12, 0, 7, 0, 8], "NameAndType { name_index: 7, descriptor_index: 8 }"),
        (vec![15, 6, 0, 9], "MethodHandle { reference_kind: 6, reference_index: 9 }"),
        (vec![16, 0, 10], "MethodType { descriptor_index: 10 }"),
        (vec![17, 0, 1, 0, 2], "Dynamic { bootstrap_method_attr_index: 1, name_and_type_index: 2 }"),
        (
            vec![18, 0, 3, 0, 4],
            "InvokeDynamic { bootstrap_method_attr_index: 3, name_and_type_index: 4 }",
        ),
        (vec![19, 0, 11], "Module { name_index: 11 }"),
        (vec![20, 0, 12], "Package { name_index: 12 }"),
    ];
    for (bytes, expected) in cases {
        let mut with_tail = bytes.clone();
        with_tail.push(0xEE);
        let mut b = Bytes::from(with_tail);
        let entry = read_pool_entry(&mut b).unwrap();
        assert_eq!(format!("{:?}", entry), expected);
        assert_eq!(&b[..], &[0xEE]);
        let mut short = Bytes::from(bytes[..bytes.len() - 1].to_vec());
        assert!(matches!(
            read_pool_entry(&mut short),
            Err(Failure { error: ClassError::TruncatedInput, .. })
        ));
    }
}

#[test]
fn tags_outside_the_format_are_refused() {
    for tag in [0u8, 2, 13, 14, 21, 255] {
        let mut b = Bytes::from(vec![tag, 0, 0, 0, 0, 0, 0, 0, 0]);
        assert!(matches!(
            read_pool_entry(&mut b),
            Err(Failure { error: ClassError::NonexistentConstantPoolTag(t), left: 9 }) if t == tag
        ));
    }
    let mut empty = Bytes::new();
    assert!(matches!(
        read_pool_entry(&mut empty),
        Err(Failure { error: ClassError::TruncatedInput, left: 0 })
    ));
}

#[test]
fn the_pool_has_the_declared_size_with_two_slots_for_long_and_double() {
    let mut bytes = vec![];
    bytes.extend_from_slice(&[3, 0, 0, 0, 7]);
    bytes.extend_from_slice(&[5, 0, 0, 0, 1, 0, 0, 0, 2]);
    bytes.extend_from_slice(&utf8("x"));
    bytes.extend_from_slice(&[6, 0, 0, 0, 3, 0, 0, 0, 4]);
    bytes.extend_from_slice(&[7, 0, 4]);
    bytes.push(0x77);
    let mut b = Bytes::from(bytes);
    let pool = read_pool(&mut b, 8).unwrap();
    assert_eq!(pool.len(), 8);
    assert!(matches!(pool[0], ConstantsPoolInfo::Dummy));
    assert!(matches!(pool[1], ConstantsPoolInfo::Integer { bytes: 7 }));
    assert!(matches!(pool[2], ConstantsPoolInfo::Long { high_bytes: 1, low_bytes: 2 }));
    assert!(matches!(pool[3], ConstantsPoolInfo::Dummy));
    assert!(matches!(pool[4], ConstantsPoolInfo::Utf8 { .. }));
    assert!(matches!(pool[5], ConstantsPoolInfo::Double { high_bytes: 3, low_bytes: 4 }));
    assert!(matches!(pool[6], ConstantsPoolInfo::Dummy));
    assert!(matches!(pool[7], ConstantsPoolInfo::Class { name_index: 4 }));
    assert_eq!(&b[..], &[0x77]);
}

#[test]
fn a_long_in_the_last_slot_fills_it_alone() {
    let mut b = Bytes::from(vec![5, 0, 0, 0, 1, 0, 0, 0, 2]);
    let pool = read_pool(&mut b, 2).unwrap();
    assert_eq!(pool.len(), 2);
    assert!(matches!(pool[1], ConstantsPoolInfo::Long { .. }));
}

#[test]
fn a_pool_of_the_declared_size_zero_or_one_has_the_unused_entry_alone() {
    let mut b = Bytes::from(vec![0xAB]);
    assert_eq!(read_pool(&mut b, 0).unwrap().len(), 1);
    assert_eq!(read_pool(&mut b, 1).unwrap().len(), 1);
    assert_eq!(&b[..], &[0xAB]);
}

#[test]
fn a_class_file_is_decoded_front_to_back() {
    let mut pool = vec![];
    pool.extend_from_slice(&[7, 0, 2]);
    pool.extend_from_slice(&utf8("Empty"));
    let c = ClassFile::new(Bytes::from(class_with_pool(3, &pool))).unwrap();
    assert_eq!(c.get_magic(), 0xCAFEBABE);
    assert_eq!(c.get_minor(), 3);
    assert_eq!(c.get_major(), 61);
    assert_eq!(c.get_constant_count(), 2);
    assert_eq!(c.get_constant_pool().len(), 3);
    assert_eq!(c.get_access_flags(), 0x21);
    assert_eq!(c.get_this_class(), 1);
    assert_eq!(c.get_super_class(), 0);
    assert_eq!(c.get_interface_count(), 0);
    assert!(c.get_interfaces().is_empty());
    assert_eq!(c.get_field_count(), 0);
    assert!(c.get_fields().is_empty());
    assert_eq!(c.get_method_count(), 0);
    assert!(c.get_methods().is_empty());
    assert_eq!(c.get_attribute_count(), 0);
    assert!(c.get_attributes().is_empty());
    assert_eq!(c.handle, None);
    assert_eq!(c.resolve(2).map(|s| s.as_str()), Some("Empty"));
    assert_eq!(c.resolve(1), None);
    assert_eq!(c.resolve(0), None);
    assert_eq!(c.resolve(3), None);
}

#[test]
fn a_wrong_marker_is_refused() {
    let mut bytes = class_with_pool(1, &[]);
    bytes[3] = 0xBF;
    assert!(matches!(
        ClassFile::new(Bytes::from(bytes)),
        Err(DecodeFailure { error: ClassError::BadMagic(0xCAFEBABF), offset: 0 })
    ));
}

#[test]
fn a_class_file_that_ends_early_is_truncated() {
    let bytes = class_with_pool(1, &[]);
    for cut in 0..bytes.len() {
        assert!(
            matches!(
                ClassFile::new(Bytes::from(bytes[..cut].to_vec())),
                Err(DecodeFailure { error: ClassError::TruncatedInput, .. })
            ),
            "{}",
            cut
        );
    }
    assert!(ClassFile::new(Bytes::from(bytes)).is_ok());
}

#[test]
fn a_class_file_with_a_bad_tag_in_its_pool_is_refused() {
    assert!(matches!(
        ClassFile::new(Bytes::from(class_with_pool(2, &[2, 0, 0]))),
        Err(DecodeFailure { error: ClassError::NonexistentConstantPoolTag(2), offset: 10 })
    ));
    assert!(matches!(
        ClassFile::new(Bytes::from(class_with_pool(2, &[1, 0, 1, 0xFF]))),
        Err(DecodeFailure { error: ClassError::MalformedUTF8Codepoint(0xFF), offset: 13 })
    ));
}

#[test]
fn interfaces_fields_and_methods_are_read_with_their_attributes() {
    let mut pool = vec![];
    pool.extend_from_slice(&utf8("Code"));
    pool.extend_from_slice(&utf8("ConstantValue"));
    pool.extend_from_slice(&utf8("LineNumberTable"));
    pool.extend_from_slice(&utf8("SourceFile"));
    let mut bytes = vec![0xCA, 0xFE, 0xBA, 0xBE, 0, 0, 0, 52, 0, 5];
    bytes.extend_from_slice(&pool);
    bytes.extend_from_slice(&[0, 1, 0, 9, 0, 8]);
    bytes.extend_from_slice(&[0, 2, 0, 11, 0, 12]);
    bytes.extend_from_slice(&[0, 1]);
    bytes.extend_from_slice(&[0, 0x18, 0, 21, 0, 22, 0, 1]);
    bytes.extend_from_slice(&[0, 2, 0, 0, 0, 2, 0, 33]);
    bytes.extend_from_slice(&[0, 1]);
    bytes.extend_from_slice(&[0, 9, 0, 31, 0, 32, 0, 1]);
    bytes.extend_from_slice(&[0, 1, 0, 0, 0, 25]);
    bytes.extend_from_slice(&[0, 2, 0, 3, 0, 0, 0, 1, 0xB1]);
    bytes.extend_from_slice(&[0, 0]);
    bytes.extend_from_slice(&[0, 1]);
    bytes.extend_from_slice(&[0, 3, 0, 0, 0, 6, 0, 1, 0, 0, 0, 42]);
    bytes.extend_from_slice(&[0, 1]);
    bytes.extend_from_slice(&[0, 4, 0, 0, 0, 2, 0, 44]);
    let c = ClassFile::new(Bytes::from(bytes)).unwrap();
    assert_eq!(c.get_interfaces(), &vec![11, 12]);
    assert_eq!(c.get_fields().len(), 1);
    let field = &c.get_fields()[0];
    assert_eq!((field.access_flags, field.name_index, field.descriptor_index), (0x18, 21, 22));
    assert!(matches!(
        field.attribute_info[0],
        Attribute::ConstantValue { constantvalue_index: 33, .. }
    ));
    let method = &c.get_methods()[0];
    assert_eq!((method.access_flags, method.name_index, method.descriptor_index), (9, 31, 32));
    match &method.attribute_info[0] {
        Attribute::Code {
            common,
            max_stack,
            max_locals,
            code_length,
            code,
            exception_table_length,
            exception_table,
            attribute_count,
            attribute_info,
        } => {
            assert_eq!(*common, AttributeCommon { attribute_name_index: 1, attribute_length: 25 });
            assert_eq!((*max_stack, *max_locals, *code_length), (2, 3, 1));
            assert_eq!(code, &vec![0xB1]);
            assert_eq!(*exception_table_length, 0);
            assert!(exception_table.is_empty());
            assert_eq!(*attribute_count, 1);
            match &attribute_info[0] {
                Attribute::LineNumberTable { line_number_table_length, line_number_table, .. } => {
                    assert_eq!(*line_number_table_length, 1);
                    assert_eq!(line_number_table[0].start_pc, 0);
                    assert_eq!(line_number_table[0].line_number, 42);
                },
                other => panic!("{:?}", other),
            }
        },
        other => panic!("{:?}", other),
    }
    assert!(matches!(c.get_attributes()[0], Attribute::SourceFile { sourcefile_index: 44, .. }));
}

#[test]
fn attribute_names_lead_to_their_kinds() {
    assert_eq!(attribute_kind_of("Code"), Some(AttributeKind::Code));
    assert_eq!(attribute_kind_of("ConstantValue"), Some(AttributeKind::ConstantValue));
    assert_eq!(attribute_kind_of("StackMapTable"), Some(AttributeKind::StackMapTable));
    assert_eq!(attribute_kind_of("Exceptions"), Some(AttributeKind::Exceptions));
    assert_eq!(attribute_kind_of("InnerClasses"), Some(AttributeKind::InnerClasses));
    assert_eq!(attribute_kind_of("EnclosingMethod"), Some(AttributeKind::EnclosingMethod));
    assert_eq!(attribute_kind_of("Synthetic"), Some(AttributeKind::Synthetic));
    assert_eq!(attribute_kind_of("Signature"), Some(AttributeKind::Signature));
    assert_eq!(attribute_kind_of("SourceFile"), Some(AttributeKind::SourceFile));
    assert_eq!(
        attribute_kind_of("SourceDebugExtension"),
        Some(AttributeKind::SourceDebugExtension)
    );
    assert_eq!(attribute_kind_of("LineNumberTable"), Some(AttributeKind::LineNumberTable));
    assert_eq!(attribute_kind_of("LocalVariableTable"), Some(AttributeKind::LocalVariableTable));
    assert_eq!(
        attribute_kind_of("LocalVariableTypeTable"),
        Some(AttributeKind::LocalVariableTypeTable)
    );
    assert_eq!(attribute_kind_of("Deprecated"), Some(AttributeKind::Deprecated));
    assert_eq!(attribute_kind_of("BootstrapMethods"), Some(AttributeKind::BootstrapMethods));
    assert_eq!(attribute_kind_of("NestHost"), Some(AttributeKind::NestHost));
    assert_eq!(attribute_kind_of("NestMembers"), Some(AttributeKind::NestMembers));
    assert_eq!(attribute_kind_of("code"), None);
    assert_eq!(attribute_kind_of("Record"), None);
    assert_eq!(attribute_kind_of(""), None);
}

#[test]
fn an_attribute_of_an_unknown_name_is_refused() {
    let pool = pool_of(&["Mystery"]);
    let r = Attribute::parse(Bytes::new(), &pool, common(1, 0), AttributeLocation::ClassFile);
    assert!(matches!(r, Err(Failure { error: ClassError::UnknownAttribute(1), left: 0 })));
    let r = Attribute::parse(Bytes::new(), &pool, common(0, 0), AttributeLocation::ClassFile);
    assert!(matches!(r, Err(Failure { error: ClassError::UnknownAttribute(0), left: 0 })));
    let r = Attribute::parse(Bytes::new(), &pool, common(9, 0), AttributeLocation::ClassFile);
    assert!(matches!(r, Err(Failure { error: ClassError::UnknownAttribute(9), left: 0 })));
}

#[test]
#[allow(non_snake_case)]
fn an_attribute_in_the_wrong_place_is_refused() {
    let (C, K, F, M) = (
        AttributeLocation::ClassFile,
        AttributeLocation::Code,
        AttributeLocation::FieldInfo,
        AttributeLocation::MethodInfo,
    );
    let allowed: Vec<(AttributeKind, Vec<AttributeLocation>)> = vec![
        (AttributeKind::ConstantValue, vec![F]),
        (AttributeKind::Code, vec![M]),
        (AttributeKind::StackMapTable, vec![K]),
        (AttributeKind::Exceptions, vec![M]),
        (AttributeKind::InnerClasses, vec![C]),
        (AttributeKind::EnclosingMethod, vec![C]),
        (AttributeKind::Synthetic, vec![C, F, M]),
        (AttributeKind::Signature, vec![C, F, M, AttributeLocation::RecordComponentInfo]),
        (AttributeKind::SourceFile, vec![C]),
        (AttributeKind::SourceDebugExtension, vec![C]),
        (AttributeKind::LineNumberTable, vec![K]),
        (AttributeKind::LocalVariableTable, vec![K]),
        (AttributeKind::LocalVariableTypeTable, vec![K]),
        (AttributeKind::Deprecated, vec![C, F, M, AttributeLocation::RecordComponentInfo, K]),
        (AttributeKind::BootstrapMethods, vec![C, F, M, AttributeLocation::RecordComponentInfo, K]),
        (AttributeKind::NestHost, vec![C]),
        (AttributeKind::NestMembers, vec![C]),
    ];
    for (kind, places) in allowed {
        for place in [C, F, M, AttributeLocation::RecordComponentInfo, K] {
            assert_eq!(is_allowed_at(kind, place), places.contains(&place), "{:?} {:?}", kind, place);
        }
    }
    let pool = pool_of(&["Code", "ConstantValue"]);
    let payload = Bytes::from(vec![0, 5]);
    let r = Attribute::parse(payload.clone(), &pool, common(2, 2), AttributeLocation::MethodInfo);
    assert!(matches!(r, Err(Failure { error: ClassError::WrongAttributeLocation(2), left: 2 })));
    let r = Attribute::parse(payload.clone(), &pool, common(1, 2), AttributeLocation::Code);
    assert!(matches!(r, Err(Failure { error: ClassError::WrongAttributeLocation(1), left: 2 })));
    let r = Attribute::parse(payload, &pool, common(2, 2), AttributeLocation::FieldInfo);
    assert!(matches!(r, Ok(Attribute::ConstantValue { constantvalue_index: 5, .. })));
}

#[test]
fn code_may_not_stand_inside_code() {
    let pool = pool_of(&["Code"]);
    let mut payload = vec![0, 1, 0, 1, 0, 0, 0, 1, 0xB1, 0, 0, 0, 1];
    payload.extend_from_slice(&[0, 1, 0, 0, 0, 0]);
    let r = Attribute::parse(
        Bytes::from(payload),
        &pool,
        common(1, 19),
        AttributeLocation::MethodInfo,
    );
    assert!(matches!(r, Err(Failure { error: ClassError::WrongAttributeLocation(1), left: 0 })));
}

#[test]
fn tables_of_an_attribute_are_read_entry_by_entry() {
    let pool = pool_of(&[
        "Exceptions",
        "InnerClasses",
        "LocalVariableTable",
        "LocalVariableTypeTable",
        "NestMembers",
        "BootstrapMethods",
        "EnclosingMethod",
        "SourceDebugExtension",
        "Code",
    ]);
    let parse = |name: u16, place: AttributeLocation, payload: Vec<u8>| {
        let length = payload.len() as u32;
        Attribute::parse(Bytes::from(payload), &pool, common(name, length), place)
    };
    match parse(1, AttributeLocation::MethodInfo, vec![0, 2, 0, 7, 0, 9]).unwrap() {
        Attribute::Exceptions { number_of_exceptions, exception_index_table, .. } => {
            assert_eq!(number_of_exceptions, 2);
            assert_eq!(exception_index_table, vec![7, 9]);
        },
        other => panic!("{:?}", other),
    }
    match parse(2, AttributeLocation::ClassFile, vec![0, 1, 0, 1, 0, 2, 0, 3, 0, 4]).unwrap() {
        Attribute::InnerClasses { classes, .. } => {
            assert_eq!(classes.len(), 1);
            assert_eq!(classes[0].inner_class_info_index, 1);
            assert_eq!(classes[0].outer_class_info_index, 2);
            assert_eq!(classes[0].inner_name_index, 3);
            assert_eq!(classes[0].inner_class_access_flags, 4);
        },
        other => panic!("{:?}", other),
    }
    let two_rows = vec![0, 2, 0, 1, 0, 2, 0, 3, 0, 4, 0, 5, 0, 6, 0, 7, 0, 8, 0, 9, 0, 10];
    match parse(3, AttributeLocation::Code, two_rows.clone()).unwrap() {
        Attribute::LocalVariableTable { local_variable_table, .. } => {
            assert_eq!(local_variable_table.len(), 2);
            let row = local_variable_table[1];
            assert_eq!(
                (row.start_pc, row.length, row.name_index, row.descriptor_index, row.index),
                (6, 7, 8, 9, 10)
            );
        },
        other => panic!("{:?}", other),
    }
    match parse(4, AttributeLocation::Code, two_rows).unwrap() {
        Attribute::LocalVariableTypeTable { local_variable_type_table, .. } => {
            let row = local_variable_type_table[0];
            assert_eq!(
                (row.start_pc, row.length, row.name_index, row.signature_index, row.index),
                (1, 2, 3, 4, 5)
            );
        },
        other => panic!("{:?}", other),
    }
    match parse(5, AttributeLocation::ClassFile, vec![0, 3, 0, 1, 0, 2, 0, 3]).unwrap() {
        Attribute::NestMembers { classes, .. } => assert_eq!(classes, vec![1, 2, 3]),
        other => panic!("{:?}", other),
    }
    match parse(6, AttributeLocation::ClassFile, vec![0, 2, 0, 9, 0, 2, 0, 1, 0, 2, 0, 8, 0, 0])
        .unwrap()
    {
        Attribute::BootstrapMethods { bootstrap_methods, .. } => {
            assert_eq!(bootstrap_methods.len(), 2);
            assert_eq!(bootstrap_methods[0].bootstrap_method_ref, 9);
            assert_eq!(bootstrap_methods[0].bootstrap_arguments, vec![1, 2]);
            assert_eq!(bootstrap_methods[1].bootstrap_method_ref, 8);
            assert!(bootstrap_methods[1].bootstrap_arguments.is_empty());
        },
        other => panic!("{:?}", other),
    }
    match parse(7, AttributeLocation::ClassFile, vec![0, 4, 0, 5]).unwrap() {
        Attribute::EnclosingMethod { class_index, method_index, .. } => {
            assert_eq!((class_index, method_index), (4, 5));
        },
        other => panic!("{:?}", other),
    }
    match parse(8, AttributeLocation::ClassFile, vec![1, 2, 3]).unwrap() {
        Attribute::SourceDebugExtension { debug_extension, .. } => {
            assert_eq!(debug_extension, vec![1, 2, 3]);
        },
        other => panic!("{:?}", other),
    }
    let code = vec![0, 1, 0, 2, 0, 0, 0, 2, 0x03, 0xAC, 0, 1, 0, 0, 0, 2, 0, 1, 0, 9, 0, 0];
    match parse(9, AttributeLocation::MethodInfo, code).unwrap() {
        Attribute::Code { exception_table, code, .. } => {
            assert_eq!(code, vec![0x03, 0xAC]);
            assert_eq!(exception_table.len(), 1);
            let row = exception_table[0];
            assert_eq!((row.start_pc, row.end_pc, row.handler_pc, row.catch_type), (0, 2, 1, 9));
        },
        other => panic!("{:?}", other),
    }
    assert!(matches!(
        parse(1, AttributeLocation::MethodInfo, vec![0, 2, 0, 7]),
        Err(Failure { error: ClassError::TruncatedInput, left: 2 })
    ));
    assert!(matches!(
        parse(6, AttributeLocation::ClassFile, vec![0, 1, 0, 9, 0, 2, 0, 1]),
        Err(Failure { error: ClassError::TruncatedInput, left: 2 })
    ));
}

#[test]
fn stack_map_frames_are_read_by_their_type() {
    let pool = pool_of(&["StackMapTable"]);
    let mut payload = vec![0, 7];
    payload.extend_from_slice(&[10]);
    payload.extend_from_slice(&[70, 1]);
    payload.extend_from_slice(&[247, 0, 5, 7, 0, 9]);
    payload.extend_from_slice(&[249, 0, 6]);
    payload.extend_from_slice(&[251, 0, 7]);
    payload.extend_from_slice(&[253, 0, 8, 2, 8, 0, 3]);
    payload.extend_from_slice(&[255, 0, 9, 0, 1, 4, 0, 2, 5, 6]);
    let length = payload.len() as u32;
    let r = Attribute::parse(Bytes::from(payload), &pool, common(1, length), AttributeLocation::Code);
    match r.unwrap() {
        Attribute::StackMapTable { number_of_entries, entries, .. } => {
            assert_eq!(number_of_entries, 7);
            assert!(matches!(entries[0], StackMapFrame::Same { frame_type: 10 }));
            assert!(matches!(
                entries[1],
                StackMapFrame::SameLocals1StackItem { frame_type: 70, stack: VerificationType::Integer }
            ));
            assert!(matches!(
                entries[2],
                StackMapFrame::SameLocals1StackItemExtended {
                    offset_delta: 5,
                    stack: VerificationType::Object { cpool_index: 9 }
                }
            ));
            assert!(matches!(entries[3], StackMapFrame::Chop { frame_type: 249, offset_delta: 6 }));
            assert!(matches!(entries[4], StackMapFrame::SameExtended { offset_delta: 7 }));
            match &entries[5] {
                StackMapFrame::Append { offset_delta, locals } => {
                    assert_eq!(*offset_delta, 8);
                    assert_eq!(
                        locals,
                        &vec![VerificationType::Float, VerificationType::Uninitialized { offset: 3 }]
                    );
                },
                other => panic!("{:?}", other),
            }
            match &entries[6] {
                StackMapFrame::Full { offset_delta, locals, stack } => {
                    assert_eq!(*offset_delta, 9);
                    assert_eq!(locals, &vec![VerificationType::Long]);
                    assert_eq!(
                        stack,
                        &vec![VerificationType::Null, VerificationType::UninitializedThis]
                    );
                },
                other => panic!("{:?}", other),
            }
        },
        other => panic!("{:?}", other),
    }
    let bad_frame = Attribute::parse(
        Bytes::from(vec![0, 1, 200]),
        &pool,
        common(1, 3),
        AttributeLocation::Code,
    );
    assert!(matches!(
        bad_frame,
        Err(Failure { error: ClassError::UnknownStackMapFrame(200), left: 1 })
    ));
    let bad_type = Attribute::parse(
        Bytes::from(vec![0, 1, 64, 9]),
        &pool,
        common(1, 4),
        AttributeLocation::Code,
    );
    assert!(matches!(
        bad_type,
        Err(Failure { error: ClassError::UnknownVerificationType(9), left: 1 })
    ));
    let top_and_double = Attribute::parse(
        Bytes::from(vec![0, 1, 252, 0, 0, 0]),
        &pool,
        common(1, 6),
        AttributeLocation::Code,
    );
    match top_and_double.unwrap() {
        Attribute::StackMapTable { entries, .. } => match &entries[0] {
            StackMapFrame::Append { locals, .. } => assert_eq!(locals, &vec![VerificationType::Top]),
            other => panic!("{:?}", other),
        },
        other => panic!("{:?}", other),
    }
}

#[test]
fn an_attribute_list_consumes_the_declared_length_of_each() {
    let pool = pool_of(&["Deprecated", "Signature"]);
    let mut bytes = vec![0, 1, 0, 0, 0, 3, 9, 9, 9];
    bytes.extend_from_slice(&[0, 2, 0, 0, 0, 4, 0, 8, 7, 7]);
    bytes.push(0x55);
    let mut b = Bytes::from(bytes);
    let attributes = read_attributes(&mut b, &pool, 2, AttributeLocation::ClassFile).unwrap();
    assert!(matches!(attributes[0], Attribute::Deprecated { .. }));
    assert!(matches!(attributes[1], Attribute::Signature { signature_index: 8, .. }));
    assert_eq!(&b[..], &[0x55]);
    let mut short = Bytes::from(vec![0, 1, 0, 0, 0, 3, 9, 9]);
    assert!(matches!(
        read_attributes(&mut short, &pool, 1, AttributeLocation::ClassFile),
        Err(Failure { error: ClassError::TruncatedInput, left: 2 })
    ));
}

#[test]
fn a_refused_class_file_says_where_it_went_wrong() {
    let mut pool = vec![];
    pool.extend_from_slice(&utf8("Deprecated"));
    pool.extend_from_slice(&utf8("Code"));
    pool.extend_from_slice(&utf8("Mystery"));
    let mut bytes = vec![0xCA, 0xFE, 0xBA, 0xBE, 0, 0, 0, 61, 0, 4];
    bytes.extend_from_slice(&pool);
    bytes.extend_from_slice(&[0, 1, 0, 0, 0, 0, 0, 0, 0, 0]);
    let head = bytes.len();
    let decode = |tail: &[u8]| {
        let mut all = bytes.clone();
        all.extend_from_slice(tail);
        ClassFile::new(Bytes::from(all)).map(|_| ())
    };
    assert_eq!(decode(&[0, 0, 0, 0]), Ok(()));
    assert_eq!(decode(&[0, 0, 0]), refused(ClassError::TruncatedInput, head + 2));
    assert_eq!(decode(&[0, 0, 0, 1, 0, 1]), refused(ClassError::TruncatedInput, head + 6));
    assert_eq!(
        decode(&[0, 0, 0, 1, 0, 3, 0, 0, 0, 2, 9, 9]),
        refused(ClassError::UnknownAttribute(3), head + 10)
    );
    assert_eq!(
        decode(&[0, 0, 0, 1, 0, 2, 0, 0, 0, 0]),
        refused(ClassError::WrongAttributeLocation(2), head + 10)
    );
    let method = [0, 1, 0, 0, 0, 0, 0, 0, 0, 1, 0, 2, 0, 0, 0, 18];
    let code = [0, 1, 0, 1, 0, 0, 0, 0, 0, 0, 0, 1, 0, 2, 0, 0, 0, 0];
    let mut tail = vec![];
    tail.extend_from_slice(&method);
    tail.extend_from_slice(&code);
    tail.extend_from_slice(&[0, 0]);
    assert_eq!(
        decode(&tail),
        refused(ClassError::WrongAttributeLocation(2), head + method.len() + code.len())
    );
    let mut cut = vec![];
    cut.extend_from_slice(&method);
    cut.extend_from_slice(&code[..9]);
    cut.extend_from_slice(&[7; 9]);
    cut.extend_from_slice(&[0, 0]);
    assert_eq!(decode(&cut), refused(ClassError::TruncatedInput, head + method.len() + 10));
}

#[test]
fn the_link_check_follows_every_index_of_the_pool() {
    let links = |count: u16, pool: &[u8]| {
        ClassFile::new(Bytes::from(class_with_pool(count, pool))).unwrap().check_links()
    };
    let name = utf8("n");
    let with = |entry: &[u8]| {
        let mut pool = name.clone();
        pool.extend_from_slice(entry);
        pool
    };
    assert!(links(1, &[]));
    assert!(links(2, &name));
    for tag in [7u8, 8, 16, 19, 20] {
        assert!(links(3, &with(&[tag, 0, 1])), "{}", tag);
        assert!(!links(3, &with(&[tag, 0, 2])), "{}", tag);
        assert!(!links(3, &with(&[tag, 0, 0])), "{}", tag);
        assert!(!links(3, &with(&[tag, 0, 9])), "{}", tag);
    }
    assert!(links(3, &with(&[12, 0, 1, 0, 1])));
    assert!(!links(3, &with(&[12, 0, 1, 0, 2])));
    assert!(!links(3, &with(&[12, 0, 0, 0, 1])));
    let mut full = name.clone();
    full.extend_from_slice(&[7, 0, 1]);
    full.extend_from_slice(&[12, 0, 1, 0, 1]);
    let full_with = |entry: &[u8]| {
        let mut pool = full.clone();
        pool.extend_from_slice(entry);
        pool
    };
    for tag in [9u8, 10, 11] {
        assert!(links(5, &full_with(&[tag, 0, 2, 0, 3])), "{}", tag);
        assert!(!links(5, &full_with(&[tag, 0, 3, 0, 2])), "{}", tag);
        assert!(!links(5, &full_with(&[tag, 0, 2, 0, 1])), "{}", tag);
        assert!(!links(5, &full_with(&[tag, 0, 1, 0, 3])), "{}", tag);
    }
    for tag in [17u8, 18] {
        assert!(links(5, &full_with(&[tag, 0, 9, 0, 3])), "{}", tag);
        assert!(!links(5, &full_with(&[tag, 0, 9, 0, 2])), "{}", tag);
    }
    let mut handle = full_with(&[10, 0, 2, 0, 3]);
    handle.extend_from_slice(&[15, 1, 0, 4]);
    assert!(links(6, &handle));
    let mut handle = full_with(&[10, 0, 2, 0, 3]);
    handle.extend_from_slice(&[15, 1, 0, 3]);
    assert!(!links(6, &handle));
    let mut handle = full_with(&[10, 0, 2, 0, 3]);
    handle.extend_from_slice(&[15, 1, 0, 6]);
    assert!(!links(6, &handle));
    assert!(links(4, &with(&[5, 0, 0, 0, 0, 0, 0, 0, 1])));
    assert!(links(3, &with(&[3, 0, 0, 0, 9])));
}
