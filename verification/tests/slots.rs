use vastatrix::class::descriptor::CharReader;
use vastatrix::class::descriptor::FieldDescriptor;
use vastatrix::class::descriptor::MethodDescriptor;
use vastatrix::class::instance::Instance;
use vastatrix::class::method::clone_slots;
use vastatrix::class::method::same_slots;
use vastatrix::class::method::Argument;
use vastatrix::class::method::Descriptor;
use vastatrix::class::method::MethodType;
use vastatrix::class::method::Num;

fn int_slot(value: i32) -> Argument {
    Argument::new(value, MethodType::Int)
}

fn class_kind(name: &str) -> MethodType {
    MethodType::ClassReference { classpath: name.to_string() }
}

#[test]
fn iadd_adds_two_ints() {
    assert_eq!(int_slot(10).wrapping_iadd(int_slot(5)), int_slot(15));
}

#[test]
fn iadd_wraps_at_the_top_of_the_range() {
    assert_eq!(int_slot(0x7FFF_FFFF).wrapping_iadd(int_slot(1)), int_slot(-2147483648));
}

#[test]
fn isub_wraps_at_the_bottom_of_the_range() {
    assert_eq!(int_slot(-2147483648).wrapping_isub(int_slot(1)), int_slot(2147483647));
    assert_eq!(int_slot(3).wrapping_isub(int_slot(10)), int_slot(-7));
}

#[test]
fn imul_wraps_to_32_bits() {
    assert_eq!(int_slot(65536).wrapping_imul(int_slot(65536)), int_slot(0));
    assert_eq!(int_slot(46341).wrapping_imul(int_slot(46341)), int_slot(-2147479015));
    assert_eq!(int_slot(-6).wrapping_imul(int_slot(7)), int_slot(-42));
}

#[test]
fn idiv_rounds_toward_zero() {
    assert_eq!(int_slot(7).wrapping_idiv(int_slot(2)), int_slot(3));
    assert_eq!(int_slot(-7).wrapping_idiv(int_slot(2)), int_slot(-3));
    assert_eq!(int_slot(7).wrapping_idiv(int_slot(-2)), int_slot(-3));
    assert_eq!(int_slot(-7).wrapping_idiv(int_slot(-2)), int_slot(3));
}

#[test]
fn idiv_of_the_lowest_integer_by_minus_one_wraps() {
    assert_eq!(int_slot(-2147483648).wrapping_idiv(int_slot(-1)), int_slot(-2147483648));
}

#[test]
fn add_assign_wraps_like_iadd() {
    let mut slot = int_slot(2147483647);
    slot.add_assign(1);
    assert_eq!(slot, int_slot(-2147483648));
    let mut slot = int_slot(5);
    slot.add_assign(-8);
    assert_eq!(slot, int_slot(-3));
}

#[test]
fn a_slot_knows_its_kind() {
    let slot = int_slot(4);
    assert!(slot.is(MethodType::Int));
    assert!(!slot.is(MethodType::Long));
    assert!(!slot.void());
    assert!(slot.is_int());
    assert!(!slot.is_ref());
    assert_eq!(slot.int_value(), 4);
    assert_eq!(slot.value(), 4);
    assert_eq!(*slot.kind(), MethodType::Int);
    assert!(Argument::new(0, MethodType::Void).void());
}

#[test]
fn a_class_reference_is_its_kind_only_for_the_same_class() {
    let slot = Argument::new(3u32, class_kind("a/B"));
    assert!(slot.is(class_kind("a/B")));
    assert!(!slot.is(class_kind("a/C")));
    assert!(!slot.is(MethodType::ArrayReference));
}

#[test]
fn value_ref_gives_the_handle_of_a_reference() {
    let mut instance = Argument::new(41u32, class_kind("a/B"));
    assert_eq!(instance.value_ref(), 41);
    assert!(instance.is_ref());
    let mut array = Argument::new(4_000_000_000u32, MethodType::ArrayReference);
    assert_eq!(array.value_ref(), 4_000_000_000);
    assert_eq!(array.reference(), 4_000_000_000);
}

#[test]
fn an_int_slot_outside_32_bits_is_no_int() {
    assert!(!Argument::new(4_000_000_000u32, MethodType::Int).is_int());
    assert!(!Argument::with_payload(-1, MethodType::ArrayReference).is_ref());
}

#[test]
fn slots_are_equal_when_payload_and_kind_are() {
    assert_eq!(int_slot(1), int_slot(1));
    assert_ne!(int_slot(1), int_slot(2));
    assert_ne!(int_slot(1), Argument::new(1, MethodType::Short));
    assert_eq!(Argument::new(7u32, class_kind("x")), Argument::new(7, class_kind("x")));
    assert_ne!(Argument::new(7u32, class_kind("x")), Argument::new(7u32, class_kind("y")));
    assert_eq!(int_slot(9).clone(), int_slot(9));
}

#[test]
fn numbers_give_their_payload() {
    assert_eq!(5u32.as_i64(), 5);
    assert_eq!((-5i32).as_i64(), -5);
    assert_eq!(4_000_000_000u32.as_i64(), 4_000_000_000);
    assert_eq!(Num::as_usize(&7u32), 7);
    assert_eq!(Num::as_usize(&7i32), 7);
}

#[test]
fn copies_of_slots_are_the_same_slots() {
    let slots = vec![int_slot(1), Argument::new(2u32, MethodType::Char)];
    let copy = clone_slots(&slots);
    assert!(same_slots(&slots, &copy));
    assert!(!same_slots(&slots, &vec![int_slot(1)]));
    assert!(!same_slots(&slots, &vec![int_slot(1), Argument::new(3u32, MethodType::Char)]));
    assert!(same_slots(&vec![], &vec![]));
}

#[test]
fn a_descriptor_lists_parameter_kinds_and_the_result() {
    let d = Descriptor::new("(IJLjava/lang/String;[C[[DZ)S".to_string());
    assert_eq!(
        d.types,
        vec![
            MethodType::Int,
            MethodType::Long,
            class_kind("java/lang/String"),
            MethodType::ArrayReference,
            MethodType::ArrayReference,
            MethodType::Boolean,
        ]
    );
    assert_eq!(d.returns, Some(MethodType::Short));
    assert_eq!(d.parameter_count(), 6);
    assert!(d.returns_value());
}

#[test]
fn a_void_descriptor_returns_no_value() {
    let d = Descriptor::new("()V".to_string());
    assert!(d.types.is_empty());
    assert_eq!(d.returns, Some(MethodType::Void));
    assert!(!d.returns_value());
}

#[test]
fn every_letter_of_the_alphabet_has_its_kind() {
    let d = Descriptor::parse("(BCDFIJSZ)[I").unwrap();
    assert_eq!(
        d.types,
        vec![
            MethodType::Byte,
            MethodType::Char,
            MethodType::Double,
            MethodType::Float,
            MethodType::Int,
            MethodType::Long,
            MethodType::Short,
            MethodType::Boolean,
        ]
    );
    assert_eq!(d.returns, Some(MethodType::ArrayReference));
}

#[test]
fn texts_that_are_no_descriptor_are_refused() {
    for text in [
        "", "(", "()", "(I", "I)V", "(V)V", "(I)VV", "(I)", "(Q)V", "(Ljava/lang/String)V", "([)V",
        "([V)V", "()VI", "(I)V ", " (I)V", "(I)[", "()L;x",
    ] {
        assert!(Descriptor::parse(text).is_none(), "{}", text);
    }
}

#[test]
fn a_class_name_may_be_empty() {
    let d = Descriptor::parse("(L;)L;").unwrap();
    assert_eq!(d.types, vec![class_kind("")]);
    assert_eq!(d.returns, Some(class_kind("")));
}

#[test]
fn descriptor_equality_is_symmetric_and_transitive() {
    let a = Descriptor::new("(I[J)V".to_string());
    let b = Descriptor::new("(I[Ljava/lang/Object;)V".to_string());
    let c = Descriptor::new("(I[[Z)V".to_string());
    let other = Descriptor::new("(I)V".to_string());
    assert!(a == b && b == a);
    assert!(b == c && a == c);
    assert!(a != other && other != a);
    assert!(Descriptor::new("()I".to_string()) != Descriptor::new("()J".to_string()));
}

#[test]
fn a_descriptor_parsed_twice_is_equal_to_itself() {
    let text = "(Ljava/lang/String;I)Ljava/lang/Object;";
    assert_eq!(Descriptor::new(text.to_string()), Descriptor::parse(text).unwrap());
}

#[test]
fn a_field_descriptor_keeps_the_element_type_of_an_array() {
    let mut reader = CharReader::new("[[Ljava/lang/String;I");
    let first = FieldDescriptor::read_from(&mut reader).unwrap();
    match first {
        FieldDescriptor::ArrayReference(a) => match *a {
            FieldDescriptor::ArrayReference(b) => match *b {
                FieldDescriptor::ClassReference(name) => assert_eq!(name, "java/lang/String"),
                other => panic!("{:?}", other),
            },
            other => panic!("{:?}", other),
        },
        other => panic!("{:?}", other),
    }
    assert_eq!(reader.remaining(), 1);
    assert!(matches!(FieldDescriptor::read_from(&mut reader), Some(FieldDescriptor::Int)));
    assert_eq!(reader.remaining(), 0);
    assert!(FieldDescriptor::read_from(&mut reader).is_none());
}

#[test]
fn a_reader_does_not_move_on_a_text_that_is_no_field_type() {
    let mut reader = CharReader::new("[[X");
    assert!(FieldDescriptor::read_from(&mut reader).is_none());
    assert_eq!(reader.remaining(), 3);
    assert_eq!(reader.peek(), Some('['));
    let mut reader = CharReader::new("Labc");
    assert!(FieldDescriptor::read_from(&mut reader).is_none());
    assert_eq!(reader.remaining(), 4);
    reader.skip();
    assert_eq!(reader.peek(), Some('a'));
}

#[test]
fn a_method_descriptor_has_no_result_for_void() {
    let mut reader = CharReader::new("(I[B)Vrest");
    let d = MethodDescriptor::read_from(&mut reader).unwrap();
    assert_eq!(d.parameters.len(), 2);
    assert!(matches!(d.parameters[0], FieldDescriptor::Int));
    assert!(matches!(d.parameters[1], FieldDescriptor::ArrayReference(_)));
    assert!(d.returns.is_none());
    assert_eq!(reader.remaining(), 4);
    let mut reader = CharReader::new("()J");
    let d = MethodDescriptor::read_from(&mut reader).unwrap();
    assert!(matches!(d.returns, Some(FieldDescriptor::Long)));
    let mut reader = CharReader::new("(I");
    assert!(MethodDescriptor::read_from(&mut reader).is_none());
    assert_eq!(reader.remaining(), 2);
}

#[test]
fn a_new_instance_has_no_fields() {
    let instance = Instance::new();
    assert_eq!(instance.len(), 0);
    assert!(instance.get("x").is_none());
}

#[test]
fn an_instance_counts_names_not_writes() {
    let mut instance = Instance::new();
    instance.insert("x".to_string(), Argument::new(1i32, MethodType::Int));
    instance.insert("y".to_string(), Argument::new(2i32, MethodType::Int));
    assert_eq!(instance.len(), 2);
    instance.insert("x".to_string(), Argument::new(3i32, MethodType::Int));
    assert_eq!(instance.len(), 2);
    assert_eq!(instance.get("x").unwrap().value(), 3);
    assert_eq!(instance.get("y").unwrap().value(), 2);
    assert!(instance.get("z").is_none());
}
