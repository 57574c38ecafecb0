use bytes::Bytes;
use vastatrix::bridge::call_native;
use vastatrix::bridge::expose_classes;
use vastatrix::bridge::native_method_of;
use vastatrix::bridge::new_string;
use vastatrix::bridge::parse_int;
use vastatrix::bridge::synthesize;
use vastatrix::bridge::NativeMethod;
use vastatrix::bridge::NativeOutcome;
use vastatrix::class::classfile::ClassError;
use vastatrix::class::classfile::DecodeFailure;
use vastatrix::class::classpath::Classpath;
use vastatrix::class::definition::ClassFile;
use vastatrix::class::frame::BytecodeFrame;
use vastatrix::vastatrix::Frame;
use vastatrix::class::method::Argument;
use vastatrix::class::method::MethodType;
use vastatrix::vastatrick::Vastatrick;
use vastatrix::vastatrix::Vastatrix;
use vastatrix::VastatrixError;

/// Assembles the bytes of a class file.
struct ClassBuilder {
    pool: Vec<u8>,
    next: u16,
    fields: Vec<u8>,
    field_count: u16,
    methods: Vec<u8>,
    method_count: u16,
    code_name: u16,
}

impl ClassBuilder {
    fn new() -> Self {
        let mut b = ClassBuilder {
            pool: Vec::new(),
            next: 1,
            fields: Vec::new(),
            field_count: 0,
            methods: Vec::new(),
            method_count: 0,
            code_name: 0,
        };
        b.code_name = b.utf8("Code");
        b
    }

    fn entry(&mut self, bytes: &[u8]) -> u16 {
        self.pool.extend_from_slice(bytes);
        let at = self.next;
        self.next += 1;
        at
    }

    fn utf8(&mut self, text: &str) -> u16 {
        let mut bytes = vec![1u8];
        bytes.extend_from_slice(&(text.len() as u16).to_be_bytes());
        bytes.extend_from_slice(text.as_bytes());
        self.entry(&bytes)
    }

    fn integer(&mut self, value: i32) -> u16 {
        let mut bytes = vec![3u8];
        bytes.extend_from_slice(&value.to_be_bytes());
        self.entry(&bytes)
    }

    fn long(&mut self, value: i64) -> u16 {
        let mut bytes = vec![5u8];
        bytes.extend_from_slice(&value.to_be_bytes());
        let at = self.entry(&bytes);
        self.next += 1;
        at
    }

    fn class(&mut self, name: &str) -> u16 {
        let name = self.utf8(name);
        let mut bytes = vec![7u8];
        bytes.extend_from_slice(&name.to_be_bytes());
        self.entry(&bytes)
    }

    fn string(&mut self, text: &str) -> u16 {
        let text = self.utf8(text);
        let mut bytes = vec![8u8];
        bytes.extend_from_slice(&text.to_be_bytes());
        self.entry(&bytes)
    }

    fn name_and_type(&mut self, name: &str, descriptor: &str) -> u16 {
        let name = self.utf8(name);
        let descriptor = self.utf8(descriptor);
        let mut bytes = vec![12u8];
        bytes.extend_from_slice(&name.to_be_bytes());
        bytes.extend_from_slice(&descriptor.to_be_bytes());
        self.entry(&bytes)
    }

    fn member_ref(&mut self, tag: u8, class: &str, name: &str, descriptor: &str) -> u16 {
        let class = self.class(class);
        let name_and_type = self.name_and_type(name, descriptor);
        let mut bytes = vec![tag];
        bytes.extend_from_slice(&class.to_be_bytes());
        bytes.extend_from_slice(&name_and_type.to_be_bytes());
        self.entry(&bytes)
    }

    fn field_ref(&mut self, class: &str, name: &str, descriptor: &str) -> u16 {
        self.member_ref(9, class, name, descriptor)
    }

    fn method_ref(&mut self, class: &str, name: &str, descriptor: &str) -> u16 {
        self.member_ref(10, class, name, descriptor)
    }

    fn field(&mut self, name: &str, descriptor: &str) {
        let name = self.utf8(name);
        let descriptor = self.utf8(descriptor);
        self.fields.extend_from_slice(&0u16.to_be_bytes());
        self.fields.extend_from_slice(&name.to_be_bytes());
        self.fields.extend_from_slice(&descriptor.to_be_bytes());
        self.fields.extend_from_slice(&0u16.to_be_bytes());
        self.field_count += 1;
    }

    fn constant_field(&mut self, flags: u16, name: &str, descriptor: &str, constant: u16) {
        let name = self.utf8(name);
        let descriptor = self.utf8(descriptor);
        let attribute = self.utf8("ConstantValue");
        self.fields.extend_from_slice(&flags.to_be_bytes());
        self.fields.extend_from_slice(&name.to_be_bytes());
        self.fields.extend_from_slice(&descriptor.to_be_bytes());
        self.fields.extend_from_slice(&1u16.to_be_bytes());
        self.fields.extend_from_slice(&attribute.to_be_bytes());
        self.fields.extend_from_slice(&2u32.to_be_bytes());
        self.fields.extend_from_slice(&constant.to_be_bytes());
        self.field_count += 1;
    }

    fn abstract_method(&mut self, name: &str, descriptor: &str) {
        let name = self.utf8(name);
        let descriptor = self.utf8(descriptor);
        self.methods.extend_from_slice(&0x0401u16.to_be_bytes());
        self.methods.extend_from_slice(&name.to_be_bytes());
        self.methods.extend_from_slice(&descriptor.to_be_bytes());
        self.methods.extend_from_slice(&0u16.to_be_bytes());
        self.method_count += 1;
    }

    fn method(&mut self, name: &str, descriptor: &str, max_stack: u16, max_locals: u16, code: &[u8]) {
        let name = self.utf8(name);
        let descriptor = self.utf8(descriptor);
        self.methods.extend_from_slice(&0x0009u16.to_be_bytes());
        self.methods.extend_from_slice(&name.to_be_bytes());
        self.methods.extend_from_slice(&descriptor.to_be_bytes());
        self.methods.extend_from_slice(&1u16.to_be_bytes());
        self.methods.extend_from_slice(&self.code_name.to_be_bytes());
        self.methods.extend_from_slice(&((12 + code.len()) as u32).to_be_bytes());
        self.methods.extend_from_slice(&max_stack.to_be_bytes());
        self.methods.extend_from_slice(&max_locals.to_be_bytes());
        self.methods.extend_from_slice(&(code.len() as u32).to_be_bytes());
        self.methods.extend_from_slice(code);
        self.methods.extend_from_slice(&0u16.to_be_bytes());
        self.methods.extend_from_slice(&0u16.to_be_bytes());
        self.method_count += 1;
    }

    fn finish(mut self, this: &str, above: &str) -> Vec<u8> {
        let this = self.class(this);
        let above = self.class(above);
        let mut out = vec![0xCA, 0xFE, 0xBA, 0xBE, 0, 0, 0, 61];
        out.extend_from_slice(&self.next.to_be_bytes());
        out.extend_from_slice(&self.pool);
        out.extend_from_slice(&0x0021u16.to_be_bytes());
        out.extend_from_slice(&this.to_be_bytes());
        out.extend_from_slice(&above.to_be_bytes());
        out.extend_from_slice(&0u16.to_be_bytes());
        out.extend_from_slice(&self.field_count.to_be_bytes());
        out.extend_from_slice(&self.fields);
        out.extend_from_slice(&self.method_count.to_be_bytes());
        out.extend_from_slice(&self.methods);
        out.extend_from_slice(&0u16.to_be_bytes());
        out
    }
}

fn machine_with(name: &str, class: Vec<u8>) -> Vastatrix {
    let mut source = Classpath::new();
    source.insert(name, class);
    Vastatrix::new(source)
}

fn int_slot(value: i32) -> Argument {
    Argument::new(value, MethodType::Int)
}

fn call(vm: &mut Vastatrix, class: &str, name: &str, descriptor: &str, args: Vec<Argument>) -> Result<Option<Argument>, VastatrixError> {
    let mut thread = Vastatrick::start(vm, class.to_string(), name, descriptor, args)?;
    thread.run(vm, 100_000)
}

fn calc() -> Vec<u8> {
    let mut b = ClassBuilder::new();
    b.method("add", "(II)I", 2, 2, &[0x1A, 0x1B, 0x60, 0xAC]);
    b.method("sub", "(II)I", 2, 2, &[0x1A, 0x1B, 0x64, 0xAC]);
    b.method("mul", "(II)I", 2, 2, &[0x1A, 0x1B, 0x68, 0xAC]);
    b.method("div", "(II)I", 2, 2, &[0x1A, 0x1B, 0x6C, 0xAC]);
    b.method(
        "fib",
        "(I)I",
        2,
        5,
        &[
            0x03, 0x3C, 0x04, 0x3D, 0x03, 0x3E, 0x1D, 0x1A, 0xA2, 0x00, 0x13, 0x1B, 0x1C, 0x60,
            0x36, 0x04, 0x1C, 0x3C, 0x15, 0x04, 0x3D, 0x84, 0x03, 0x01, 0xA7, 0xFF, 0xEE, 0x1B,
            0xAC,
        ],
    );
    b.method("sq", "(I)I", 2, 1, &[0x1A, 0x1A, 0x68, 0xAC]);
    let sq = b.method_ref("Calc", "sq", "(I)I");
    let [hi, lo] = sq.to_be_bytes();
    b.method(
        "sum_of_squares",
        "(I)I",
        3,
        3,
        &[
            0x03, 0x3C, 0x04, 0x3D, 0x1C, 0x1A, 0x04, 0x60, 0xA2, 0x00, 0x10, 0x1B, 0x1C, 0xB8, hi,
            lo, 0x60, 0x3C, 0x84, 0x02, 0x01, 0xA7, 0xFF, 0xEF, 0x1B, 0xAC,
        ],
    );
    b.finish("Calc", "java/lang/Object")
}

#[test]
fn add_of_ten_and_five_is_fifteen() {
    let mut vm = machine_with("Calc", calc());
    let r = call(&mut vm, "Calc", "add", "(II)I", vec![int_slot(10), int_slot(5)]);
    assert_eq!(r, Ok(Some(int_slot(15))));
}

#[test]
fn add_wraps_to_the_lowest_integer() {
    let mut vm = machine_with("Calc", calc());
    let r = call(&mut vm, "Calc", "add", "(II)I", vec![int_slot(0x7FFF_FFFF), int_slot(1)]);
    assert_eq!(r, Ok(Some(int_slot(-2147483648))));
}

#[test]
fn fib_of_twelve_is_144() {
    let mut vm = machine_with("Calc", calc());
    let r = call(&mut vm, "Calc", "fib", "(I)I", vec![int_slot(12)]);
    assert_eq!(r, Ok(Some(int_slot(144))));
}

#[test]
fn sum_of_squares_up_to_five_is_55() {
    let mut vm = machine_with("Calc", calc());
    let r = call(&mut vm, "Calc", "sum_of_squares", "(I)I", vec![int_slot(5)]);
    assert_eq!(r, Ok(Some(int_slot(55))));
}

fn point() -> Vec<u8> {
    let mut b = ClassBuilder::new();
    b.field("x", "I");
    let object_init = b.method_ref("java/lang/Object", "<init>", "()V");
    let [oh, ol] = object_init.to_be_bytes();
    b.method("<init>", "()V", 1, 1, &[0x2A, 0xB7, oh, ol, 0xB1]);
    let point = b.class("Point");
    let [ph, pl] = point.to_be_bytes();
    let init = b.method_ref("Point", "<init>", "()V");
    let [ih, il] = init.to_be_bytes();
    let x = b.field_ref("Point", "x", "I");
    let [xh, xl] = x.to_be_bytes();
    b.method(
        "test",
        "()I",
        3,
        1,
        &[
            0xBB, ph, pl, 0x59, 0xB7, ih, il, 0x4B, 0x2A, 0x08, 0x05, 0x60, 0xB5, xh, xl, 0x2A,
            0xB4, xh, xl, 0xAC,
        ],
    );
    let hello = b.string("hello");
    b.method("greet", "()V", 1, 0, &[0x12, hello as u8, 0xB1]);
    b.finish("Point", "java/lang/Object")
}

#[test]
fn field_written_with_seven_reads_seven() {
    let mut vm = machine_with("Point", point());
    let r = call(&mut vm, "Point", "test", "()I", vec![]);
    assert_eq!(r, Ok(Some(int_slot(7))));
}

#[test]
fn ldc_of_a_text_makes_a_string_of_its_characters() {
    let mut vm = machine_with("Point", point());
    let mut thread =
        Vastatrick::start(&mut vm, "Point".to_string(), "greet", "()V", vec![]).unwrap();
    assert_eq!(thread.step(&mut vm), Ok(None));
    let top = thread.frames[0].stack.last().unwrap().clone();
    assert!(top.is(MethodType::ClassReference { classpath: "java/lang/String".to_string() }));
    let value = vm.get_field(top.value() as u32, "value").unwrap();
    assert!(value.is(MethodType::ArrayReference));
    let array = vm.get_array(value.value() as usize).unwrap();
    assert_eq!(array.0, MethodType::Char);
    let codes: Vec<i64> = array.1.iter().map(|slot| slot.value()).collect();
    assert_eq!(codes, vec![104, 101, 108, 108, 111]);
}

fn machine_of(classes: Vec<(&str, Vec<u8>)>) -> Vastatrix {
    let mut source = Classpath::new();
    for (name, class) in classes {
        source.insert(name, class);
    }
    Vastatrix::new(source)
}

/// A class `T` with one static method `m` of the given descriptor and code.
fn one_method(descriptor: &str, max_stack: u16, max_locals: u16, code: &[u8]) -> Vastatrix {
    let mut b = ClassBuilder::new();
    b.method("m", descriptor, max_stack, max_locals, code);
    machine_with("T", b.finish("T", "java/lang/Object"))
}

fn run_one(descriptor: &str, max_stack: u16, max_locals: u16, code: &[u8], args: Vec<Argument>) -> Result<Option<Argument>, VastatrixError> {
    let mut vm = one_method(descriptor, max_stack, max_locals, code);
    call(&mut vm, "T", "m", descriptor, args)
}

fn text_of(vm: &Vastatrix, string: &Argument) -> String {
    let value = vm.get_field(string.value() as u32, "value").unwrap();
    let array = vm.get_array(value.value() as usize).unwrap();
    array.1.iter().map(|slot| char::from_u32(slot.value() as u32).unwrap()).collect()
}

#[test]
fn sub_mul_and_div_take_the_lower_slot_as_the_left_operand() {
    let mut vm = machine_with("Calc", calc());
    assert_eq!(call(&mut vm, "Calc", "sub", "(II)I", vec![int_slot(10), int_slot(3)]), Ok(Some(int_slot(7))));
    assert_eq!(call(&mut vm, "Calc", "mul", "(II)I", vec![int_slot(-4), int_slot(6)]), Ok(Some(int_slot(-24))));
    assert_eq!(call(&mut vm, "Calc", "div", "(II)I", vec![int_slot(-9), int_slot(2)]), Ok(Some(int_slot(-4))));
    assert_eq!(
        call(&mut vm, "Calc", "div", "(II)I", vec![int_slot(-2147483648), int_slot(-1)]),
        Ok(Some(int_slot(-2147483648)))
    );
}

#[test]
fn division_by_zero_is_fatal() {
    let mut vm = machine_with("Calc", calc());
    let r = call(&mut vm, "Calc", "div", "(II)I", vec![int_slot(1), int_slot(0)]);
    assert_eq!(r, Err(VastatrixError::DivisionByZero));
}

#[test]
fn the_constants_from_minus_one_to_five_are_pushed() {
    for (op, value) in [(0x02u8, -1), (0x03, 0), (0x04, 1), (0x05, 2), (0x06, 3), (0x07, 4), (0x08, 5)] {
        assert_eq!(run_one("()I", 1, 0, &[op, 0xAC], vec![]), Ok(Some(int_slot(value))));
    }
}

#[test]
fn an_unknown_instruction_is_fatal() {
    assert_eq!(run_one("()V", 1, 0, &[0x00], vec![]), Err(VastatrixError::UnknownOpcode(0x00)));
    assert_eq!(run_one("()V", 1, 0, &[0x10, 7], vec![]), Err(VastatrixError::UnknownOpcode(0x10)));
    assert_eq!(run_one("()V", 1, 0, &[0xB0], vec![]), Err(VastatrixError::UnknownOpcode(0xB0)));
}

#[test]
fn running_off_the_code_is_fatal() {
    assert_eq!(run_one("()V", 1, 0, &[0x03], vec![]), Err(VastatrixError::CodeOutOfRange));
    assert_eq!(run_one("()V", 1, 0, &[], vec![]), Err(VastatrixError::CodeOutOfRange));
    assert_eq!(run_one("()V", 1, 1, &[0x15], vec![]), Err(VastatrixError::CodeOutOfRange));
    assert_eq!(run_one("()V", 1, 0, &[0xA7, 0xFF, 0xFF], vec![]), Err(VastatrixError::CodeOutOfRange));
    assert_eq!(run_one("()V", 1, 0, &[0xA7, 0x00], vec![]), Err(VastatrixError::CodeOutOfRange));
}

#[test]
fn the_operand_stack_has_a_floor_and_a_ceiling() {
    assert_eq!(run_one("()I", 1, 0, &[0x03, 0x03, 0xAC], vec![]), Err(VastatrixError::StackOverflow));
    assert_eq!(run_one("()I", 2, 0, &[0x60, 0xAC], vec![]), Err(VastatrixError::StackUnderflow));
    assert_eq!(run_one("()I", 2, 0, &[0x03, 0x60, 0xAC], vec![]), Err(VastatrixError::StackUnderflow));
    assert_eq!(run_one("()I", 2, 0, &[0x57, 0xAC], vec![]), Err(VastatrixError::StackUnderflow));
    assert_eq!(run_one("()I", 2, 0, &[0x59, 0xAC], vec![]), Err(VastatrixError::StackUnderflow));
    assert_eq!(run_one("()I", 2, 0, &[0xAC], vec![]), Err(VastatrixError::StackUnderflow));
    assert_eq!(run_one("()I", 1, 0, &[0x03, 0x59, 0xAC], vec![]), Err(VastatrixError::StackOverflow));
}

#[test]
fn narrow_integers_travel_like_integers_but_do_not_add() {
    for kind in [MethodType::Boolean, MethodType::Byte, MethodType::Char, MethodType::Short] {
        let slot = Argument::new(1, kind.clone());
        assert!(slot.is_word() && !slot.is_int());
        let r = run_one("(I)I", 1, 2, &[0x1A, 0x3C, 0x1B, 0xAC], vec![slot.clone()]);
        assert_eq!(r, Ok(Some(slot.clone())));
        let r = run_one("(I)I", 2, 1, &[0x1A, 0x04, 0x60, 0xAC], vec![slot.clone()]);
        assert_eq!(r, Err(VastatrixError::TypeMismatch));
        let r = run_one("(I)I", 2, 1, &[0x84, 0x00, 0x01, 0x1A, 0xAC], vec![slot]);
        assert_eq!(r, Err(VastatrixError::TypeMismatch));
    }
    for kind in [MethodType::Long, MethodType::Float, MethodType::Double, MethodType::Void] {
        let slot = Argument::new(1, kind);
        assert!(!slot.is_word());
        let r = run_one("(I)I", 1, 1, &[0x1A, 0xAC], vec![slot]);
        assert_eq!(r, Err(VastatrixError::TypeMismatch));
    }
}

#[test]
fn a_slot_of_the_wrong_kind_is_fatal() {
    assert_eq!(run_one("()I", 1, 1, &[0x1A, 0xAC], vec![]), Err(VastatrixError::TypeMismatch));
    assert_eq!(run_one("(I)V", 1, 1, &[0x2A, 0xB1], vec![int_slot(1)]), Err(VastatrixError::TypeMismatch));
    assert_eq!(run_one("()V", 1, 1, &[0x03, 0x4B, 0xB1], vec![]), Err(VastatrixError::TypeMismatch));
    let reference = Argument::new(0u32, MethodType::ArrayReference);
    assert_eq!(run_one("([I)I", 1, 1, &[0x2A, 0xAC], vec![reference.clone()]), Err(VastatrixError::TypeMismatch));
    assert_eq!(run_one("([I)V", 1, 1, &[0x2A, 0x3B, 0xB1], vec![reference.clone()]), Err(VastatrixError::TypeMismatch));
    assert_eq!(run_one("([I)V", 2, 1, &[0x2A, 0x03, 0x60, 0xB1], vec![reference.clone()]), Err(VastatrixError::TypeMismatch));
    assert_eq!(run_one("([I)V", 2, 1, &[0x84, 0x00, 0x01, 0xB1], vec![reference]), Err(VastatrixError::TypeMismatch));
}

#[test]
fn a_local_variable_outside_the_frame_is_fatal() {
    assert_eq!(run_one("()I", 1, 1, &[0x15, 0x05, 0xAC], vec![]), Err(VastatrixError::LocalOutOfRange));
    assert_eq!(run_one("()V", 1, 1, &[0x03, 0x36, 0x01, 0xB1], vec![]), Err(VastatrixError::LocalOutOfRange));
    assert_eq!(run_one("()V", 1, 0, &[0x84, 0x00, 0x01, 0xB1], vec![]), Err(VastatrixError::LocalOutOfRange));
    assert_eq!(run_one("(II)I", 1, 1, &[0x1A, 0xAC], vec![int_slot(1), int_slot(2)]), Err(VastatrixError::LocalOutOfRange));
}

#[test]
fn loads_and_stores_move_slots_between_locals_and_stack() {
    let code = [0x08, 0x36, 0x04, 0x15, 0x04, 0x3B, 0x1A, 0x3C, 0x1B, 0x3D, 0x1C, 0x3E, 0x1D, 0xAC];
    assert_eq!(run_one("()I", 1, 5, &code, vec![]), Ok(Some(int_slot(5))));
    let reference = Argument::new(9u32, MethodType::ClassReference { classpath: "X".to_string() });
    let mut vm = one_method("(LX;)V", 1, 3, &[0x2A, 0x4D, 0x2C, 0x4B, 0xB1]);
    let mut thread = Vastatrick::start(&mut vm, "T".to_string(), "m", "(LX;)V", vec![reference.clone()]).unwrap();
    for _ in 0..4 {
        assert_eq!(thread.step(&mut vm), Ok(None));
    }
    assert_eq!(thread.frames[0].locals[0], reference);
    assert_eq!(thread.frames[0].locals[2], reference);
    assert!(thread.frames[0].locals[1].void());
    assert!(thread.frames[0].stack.is_empty());
    assert_eq!(thread.frames[0].ip, 4);
}

#[test]
fn dup_doubles_the_top_and_pop_drops_it() {
    assert_eq!(run_one("()I", 2, 0, &[0x06, 0x59, 0x68, 0xAC], vec![]), Ok(Some(int_slot(9))));
    assert_eq!(run_one("()I", 2, 0, &[0x04, 0x05, 0x57, 0xAC], vec![]), Ok(Some(int_slot(1))));
}

#[test]
fn iadd_lowers_the_stack_by_one_and_dup_raises_it_by_one() {
    let mut vm = one_method("()I", 3, 0, &[0x04, 0x05, 0x59, 0x60, 0xAC]);
    let mut thread = Vastatrick::start(&mut vm, "T".to_string(), "m", "()I", vec![]).unwrap();
    thread.step(&mut vm).unwrap();
    thread.step(&mut vm).unwrap();
    assert_eq!(thread.frames[0].stack.len(), 2);
    thread.step(&mut vm).unwrap();
    assert_eq!(thread.frames[0].stack.len(), 3);
    thread.step(&mut vm).unwrap();
    assert_eq!(thread.frames[0].stack.len(), 2);
    assert_eq!(thread.frames[0].stack, vec![int_slot(1), int_slot(4)]);
    assert_eq!(thread.frames[0].ip, 4);
}

#[test]
fn goto_lands_at_its_own_address_plus_the_offset() {
    let code = [0xA7, 0x00, 0x05, 0x03, 0xAC, 0xA7, 0xFF, 0xFE];
    let mut vm = one_method("()I", 1, 0, &code);
    let mut thread = Vastatrick::start(&mut vm, "T".to_string(), "m", "()I", vec![]).unwrap();
    thread.step(&mut vm).unwrap();
    assert_eq!(thread.frames[0].ip, 5);
    thread.step(&mut vm).unwrap();
    assert_eq!(thread.frames[0].ip, 3);
    assert_eq!(thread.run(&mut vm, 10), Ok(Some(int_slot(0))));
}

#[test]
fn the_branch_is_taken_when_the_lower_slot_is_greater_or_equal() {
    let code = [0x1A, 0x1B, 0xA2, 0x00, 0x05, 0x03, 0xAC, 0x04, 0xAC];
    for (a, b, taken) in [(1, 2, 0), (2, 2, 1), (3, 2, 1), (-5, -4, 0), (-4, -5, 1), (-1, 0, 0)] {
        let r = run_one("(II)I", 2, 2, &code, vec![int_slot(a), int_slot(b)]);
        assert_eq!(r, Ok(Some(int_slot(taken))), "{} {}", a, b);
    }
}

#[test]
fn iinc_adds_a_signed_byte_and_wraps() {
    assert_eq!(run_one("(I)I", 1, 1, &[0x84, 0x00, 0xFD, 0x1A, 0xAC], vec![int_slot(10)]), Ok(Some(int_slot(7))));
    assert_eq!(run_one("(I)I", 1, 1, &[0x84, 0x00, 0x7F, 0x1A, 0xAC], vec![int_slot(1)]), Ok(Some(int_slot(128))));
    assert_eq!(
        run_one("(I)I", 1, 1, &[0x84, 0x00, 0x01, 0x1A, 0xAC], vec![int_slot(2147483647)]),
        Ok(Some(int_slot(-2147483648)))
    );
    assert_eq!(
        run_one("(I)I", 1, 1, &[0x84, 0x00, 0x80, 0x1A, 0xAC], vec![int_slot(-2147483648)]),
        Ok(Some(int_slot(2147483520)))
    );
}

#[test]
fn a_run_stops_when_its_steps_are_used_up_and_can_go_on() {
    let mut vm = machine_with("Calc", calc());
    let mut thread = Vastatrick::start(&mut vm, "Calc".to_string(), "fib", "(I)I", vec![int_slot(12)]).unwrap();
    assert_eq!(thread.run(&mut vm, 0), Ok(None));
    assert_eq!(thread.run(&mut vm, 50), Ok(None));
    assert_eq!(thread.frames.len(), 1);
    assert_eq!(thread.run(&mut vm, 1_000), Ok(Some(int_slot(144))));
    assert!(thread.frames.is_empty());
    assert_eq!(thread.step(&mut vm), Err(VastatrixError::NoFrame));
    assert_eq!(Vastatrick::new().run(&mut vm, 5), Err(VastatrixError::NoFrame));
}

#[test]
fn an_endless_loop_runs_for_as_long_as_it_is_given() {
    let mut vm = one_method("()V", 0, 0, &[0xA7, 0x00, 0x00]);
    let mut thread = Vastatrick::start(&mut vm, "T".to_string(), "m", "()V", vec![]).unwrap();
    assert_eq!(thread.run(&mut vm, 10_000), Ok(None));
}

#[test]
fn arrays_are_made_written_read_and_measured() {
    let code = [
        0x06, 0xBC, 0x0A, 0x4B, 0x2A, 0x04, 0x08, 0x4F, 0x2A, 0x04, 0x2E, 0x2A, 0xBE, 0x60, 0x2A,
        0x03, 0x2E, 0x60, 0xAC,
    ];
    assert_eq!(run_one("()I", 3, 1, &code, vec![]), Ok(Some(int_slot(8))));
}

#[test]
fn newarray_knows_eight_element_kinds() {
    let kinds = [
        (4u8, MethodType::Boolean),
        (5, MethodType::Char),
        (6, MethodType::Float),
        (7, MethodType::Double),
        (8, MethodType::Byte),
        (9, MethodType::Short),
        (10, MethodType::Int),
        (11, MethodType::Long),
    ];
    for (atype, kind) in kinds {
        let mut vm = one_method("()V", 1, 0, &[0x05, 0xBC, atype, 0xB1]);
        let mut thread = Vastatrick::start(&mut vm, "T".to_string(), "m", "()V", vec![]).unwrap();
        thread.step(&mut vm).unwrap();
        thread.step(&mut vm).unwrap();
        let top = thread.frames[0].stack[0].clone();
        assert!(top.is(MethodType::ArrayReference));
        let array = vm.get_array(top.value() as usize).unwrap();
        assert_eq!(array.0, kind);
        assert_eq!(array.1, vec![Argument::with_payload(0, kind.clone()), Argument::with_payload(0, kind)]);
    }
    for atype in [0u8, 3, 12, 255] {
        assert_eq!(run_one("()V", 1, 0, &[0x05, 0xBC, atype, 0xB1], vec![]), Err(VastatrixError::BadArrayType(atype)));
    }
}

#[test]
fn arrays_have_bounds() {
    assert_eq!(run_one("()V", 1, 0, &[0x02, 0xBC, 0x0A, 0xB1], vec![]), Err(VastatrixError::ArrayOutOfRange));
    let load = |index: u8| run_one("()I", 2, 0, &[0x05, 0xBC, 0x0A, index, 0x2E, 0xAC], vec![]);
    assert_eq!(load(0x03), Ok(Some(int_slot(0))));
    assert_eq!(load(0x04), Ok(Some(int_slot(0))));
    assert_eq!(load(0x05), Err(VastatrixError::ArrayOutOfRange));
    assert_eq!(load(0x02), Err(VastatrixError::ArrayOutOfRange));
    let store = |index: u8| run_one("()V", 3, 0, &[0x05, 0xBC, 0x0A, index, 0x08, 0x4F, 0xB1], vec![]);
    assert_eq!(store(0x04), Ok(Some(Argument::new(0, MethodType::Void))));
    assert_eq!(store(0x05), Err(VastatrixError::ArrayOutOfRange));
    assert_eq!(store(0x02), Err(VastatrixError::ArrayOutOfRange));
    assert_eq!(run_one("()I", 1, 0, &[0x03, 0xBC, 0x0A, 0xBE, 0xAC], vec![]), Ok(Some(int_slot(0))));
}

#[test]
fn a_reference_to_no_array_is_a_bad_handle() {
    let stale = Argument::new(77u32, MethodType::ArrayReference);
    assert_eq!(run_one("([I)I", 1, 1, &[0x2A, 0xBE, 0xAC], vec![stale.clone()]), Err(VastatrixError::BadHandle(77)));
    assert_eq!(run_one("([I)I", 2, 1, &[0x2A, 0x02, 0x2E, 0xAC], vec![stale]), Err(VastatrixError::BadHandle(77)));
    let instance = Argument::new(0u32, MethodType::ClassReference { classpath: "X".to_string() });
    assert_eq!(run_one("(LX;)I", 1, 1, &[0x2A, 0xBE, 0xAC], vec![instance]), Err(VastatrixError::TypeMismatch));
}

#[test]
fn ldc_pushes_an_integer_constant() {
    let mut b = ClassBuilder::new();
    let big = b.integer(-123456789);
    let name = b.utf8("not a constant");
    b.method("m", "()I", 1, 0, &[0x12, big as u8, 0xAC]);
    b.method("bad", "()I", 1, 0, &[0x12, name as u8, 0xAC]);
    b.method("far", "()I", 1, 0, &[0x12, 0xFF, 0xAC]);
    let mut vm = machine_with("T", b.finish("T", "java/lang/Object"));
    assert_eq!(call(&mut vm, "T", "m", "()I", vec![]), Ok(Some(int_slot(-123456789))));
    assert_eq!(call(&mut vm, "T", "bad", "()I", vec![]), Err(VastatrixError::BadConstant(name)));
    assert_eq!(call(&mut vm, "T", "far", "()I", vec![]), Err(VastatrixError::BadConstant(255)));
}

fn shapes() -> Vec<(&'static str, Vec<u8>)> {
    let mut base = ClassBuilder::new();
    base.field("id", "I");
    let object_init = base.method_ref("java/lang/Object", "<init>", "()V");
    let [oh, ol] = object_init.to_be_bytes();
    base.method("<init>", "()V", 1, 1, &[0x2A, 0xB7, oh, ol, 0xB1]);
    base.method("sides", "()I", 1, 1, &[0x03, 0xAC]);
    base.method("twice", "(I)I", 2, 2, &[0x1B, 0x1B, 0x60, 0xAC]);
    base.abstract_method("area", "()I");
    let base = base.finish("Shape", "java/lang/Object");

    let mut square = ClassBuilder::new();
    square.field("side", "I");
    let shape_init = square.method_ref("Shape", "<init>", "()V");
    let [sh, sl] = shape_init.to_be_bytes();
    square.method("<init>", "()V", 1, 1, &[0x2A, 0xB7, sh, sl, 0xB1]);
    square.method("sides", "()I", 1, 1, &[0x07, 0xAC]);
    let square = square.finish("Square", "Shape");

    let mut dot = ClassBuilder::new();
    let shape_init = dot.method_ref("Shape", "<init>", "()V");
    let [sh, sl] = shape_init.to_be_bytes();
    dot.method("<init>", "()V", 1, 1, &[0x2A, 0xB7, sh, sl, 0xB1]);
    let dot = dot.finish("Dot", "Shape");

    let mut user = ClassBuilder::new();
    for (method, class) in [("square", "Square"), ("dot", "Dot"), ("shape", "Shape")] {
        let made = user.class(class);
        let [ch, cl] = made.to_be_bytes();
        let init = user.method_ref(class, "<init>", "()V");
        let [ih, il] = init.to_be_bytes();
        let sides = user.method_ref("Shape", "sides", "()I");
        let [vh, vl] = sides.to_be_bytes();
        user.method(method, "()I", 2, 0, &[0xBB, ch, cl, 0x59, 0xB7, ih, il, 0xB6, vh, vl, 0xAC]);
    }
    let made = user.class("Square");
    let [ch, cl] = made.to_be_bytes();
    let sides = user.method_ref("Shape", "sides", "()I");
    let [vh, vl] = sides.to_be_bytes();
    user.method("special", "()I", 2, 0, &[0xBB, ch, cl, 0xB7, vh, vl, 0xAC]);
    let twice = user.method_ref("Square", "twice", "(I)I");
    let [th, tl] = twice.to_be_bytes();
    user.method("inherited", "()I", 2, 0, &[0xBB, ch, cl, 0x08, 0xB6, th, tl, 0xAC]);
    let missing = user.method_ref("Square", "corners", "()I");
    let [mh, ml] = missing.to_be_bytes();
    user.method("missing", "()I", 2, 0, &[0xB8, mh, ml, 0xAC]);
    let area = user.method_ref("Square", "area", "()I");
    let [ah, al] = area.to_be_bytes();
    user.method("no_code", "()I", 2, 0, &[0xBB, ch, cl, 0xB6, ah, al, 0xAC]);
    let gone = user.class("Circle");
    let [gh, gl] = gone.to_be_bytes();
    user.method("gone", "()V", 1, 0, &[0xBB, gh, gl, 0xB1]);
    let user = user.finish("User", "java/lang/Object");
    vec![("Shape", base), ("Square", square), ("Dot", dot), ("User", user)]
}

#[test]
fn invokevirtual_starts_at_the_class_of_the_receiver() {
    let mut vm = machine_of(shapes());
    assert_eq!(call(&mut vm, "User", "square", "()I", vec![]), Ok(Some(int_slot(4))));
    assert_eq!(call(&mut vm, "User", "dot", "()I", vec![]), Ok(Some(int_slot(0))));
    assert_eq!(call(&mut vm, "User", "shape", "()I", vec![]), Ok(Some(int_slot(0))));
}

#[test]
fn invokespecial_starts_at_the_class_that_the_reference_names() {
    let mut vm = machine_of(shapes());
    assert_eq!(call(&mut vm, "User", "special", "()I", vec![]), Ok(Some(int_slot(0))));
}

#[test]
fn a_method_is_found_in_the_class_above() {
    let mut vm = machine_of(shapes());
    assert_eq!(call(&mut vm, "User", "inherited", "()I", vec![]), Ok(Some(int_slot(10))));
}

#[test]
fn a_method_that_no_class_has_is_not_found() {
    let mut vm = machine_of(shapes());
    assert_eq!(call(&mut vm, "User", "missing", "()I", vec![]), Err(VastatrixError::NoSuchMethod));
    assert_eq!(call(&mut vm, "User", "no_code", "()I", vec![]), Err(VastatrixError::NoSuchMethod));
    assert_eq!(call(&mut vm, "User", "nothing", "()I", vec![]), Err(VastatrixError::NoSuchMethod));
    assert_eq!(call(&mut vm, "User", "square", "()J", vec![]), Err(VastatrixError::NoSuchMethod));
    assert_eq!(
        call(&mut vm, "java/lang/Object", "<init>", "()V", vec![]),
        Err(VastatrixError::NoSuchMethod)
    );
}

#[test]
fn a_class_that_is_nowhere_is_not_found() {
    let mut vm = machine_of(shapes());
    assert_eq!(call(&mut vm, "User", "gone", "()V", vec![]), Err(VastatrixError::ClasspathIncomplete));
    assert_eq!(call(&mut vm, "Nobody", "m", "()V", vec![]), Err(VastatrixError::ClasspathIncomplete));
    assert_eq!(
        vm.load_or_get_class_handle("java/lang/Number".to_string()),
        Err(VastatrixError::ClasspathIncomplete)
    );
}

#[test]
fn a_class_file_that_cannot_be_decoded_is_not_loaded() {
    let mut vm = machine_with("Broken", vec![0xCA, 0xFE, 0xBA, 0xBE, 0, 0]);
    assert!(matches!(
        vm.load_or_get_class_handle("Broken".to_string()),
        Err(VastatrixError::Class(DecodeFailure { error: ClassError::TruncatedInput, offset: 6 }, 0))
    ));
    assert_eq!(vm.source_name(0).map(|s| s.as_str()), Some("Broken"));
    assert_eq!(vm.source_name(1), None);
    let mut vm = machine_with("Broken", vec![0, 0, 0, 0]);
    assert!(matches!(
        vm.load_or_get_class_handle("Broken".to_string()),
        Err(VastatrixError::Class(DecodeFailure { error: ClassError::BadMagic(0), offset: 0 }, 0))
    ));
}

#[test]
fn arguments_arrive_in_the_order_of_the_declaration() {
    let mut b = ClassBuilder::new();
    b.method("sub", "(II)I", 2, 2, &[0x1A, 0x1B, 0x64, 0xAC]);
    let sub = b.method_ref("T", "sub", "(II)I");
    let [sh, sl] = sub.to_be_bytes();
    b.method("m", "()I", 3, 0, &[0x04, 0x08, 0x05, 0xB8, sh, sl, 0x60, 0xAC]);
    b.method("nothing", "()V", 0, 0, &[0xB1]);
    let nothing = b.method_ref("T", "nothing", "()V");
    let [nh, nl] = nothing.to_be_bytes();
    b.method("keeps", "()I", 1, 0, &[0x07, 0xB8, nh, nl, 0xAC]);
    b.method("short", "()I", 2, 0, &[0x07, 0xB8, sh, sl, 0xAC]);
    let mut vm = machine_with("T", b.finish("T", "java/lang/Object"));
    assert_eq!(call(&mut vm, "T", "m", "()I", vec![]), Ok(Some(int_slot(4))));
    assert_eq!(call(&mut vm, "T", "keeps", "()I", vec![]), Ok(Some(int_slot(4))));
    assert_eq!(call(&mut vm, "T", "short", "()I", vec![]), Err(VastatrixError::StackUnderflow));
}

#[test]
fn a_call_puts_one_slot_on_the_callers_stack_for_a_value_and_none_for_void() {
    let mut b = ClassBuilder::new();
    b.method("five", "()I", 2, 0, &[0x03, 0x08, 0xAC]);
    b.method("nothing", "()V", 1, 0, &[0x03, 0xB1]);
    let five = b.method_ref("T", "five", "()I");
    let [fh, fl] = five.to_be_bytes();
    let nothing = b.method_ref("T", "nothing", "()V");
    let [nh, nl] = nothing.to_be_bytes();
    b.method("m", "()V", 2, 0, &[0x04, 0xB8, fh, fl, 0x57, 0xB8, nh, nl, 0xB1]);
    let mut vm = machine_with("T", b.finish("T", "java/lang/Object"));
    let mut thread = Vastatrick::start(&mut vm, "T".to_string(), "m", "()V", vec![]).unwrap();
    thread.step(&mut vm).unwrap();
    thread.step(&mut vm).unwrap();
    assert_eq!(thread.frames.len(), 2);
    assert_eq!(thread.frames[0].ip, 4);
    assert_eq!(thread.frames[0].stack, vec![int_slot(1)]);
    thread.run(&mut vm, 3).unwrap();
    assert_eq!(thread.frames.len(), 1);
    assert_eq!(thread.frames[0].stack, vec![int_slot(1), int_slot(5)]);
    thread.run(&mut vm, 2).unwrap();
    assert_eq!(thread.frames.len(), 2);
    thread.run(&mut vm, 2).unwrap();
    assert_eq!(thread.frames.len(), 1);
    assert_eq!(thread.frames[0].stack, vec![int_slot(1)]);
    assert_eq!(thread.run(&mut vm, 1), Ok(Some(Argument::new(0, MethodType::Void))));
}

#[test]
fn a_reference_that_leads_nowhere_is_a_bad_constant() {
    let mut b = ClassBuilder::new();
    let name = b.utf8("plain");
    let [ph, pl] = name.to_be_bytes();
    b.method("call", "()V", 1, 0, &[0xB8, ph, pl, 0xB1]);
    b.method("make", "()V", 1, 0, &[0xBB, ph, pl, 0xB1]);
    b.method("read", "()V", 1, 0, &[0xB4, ph, pl, 0xB1]);
    b.method("write", "()V", 1, 0, &[0xB5, ph, pl, 0xB1]);
    let bad = b.method_ref("T", "odd", "(I");
    let [bh, bl] = bad.to_be_bytes();
    b.method("odd", "()V", 1, 0, &[0xB8, bh, bl, 0xB1]);
    let mut vm = machine_with("T", b.finish("T", "java/lang/Object"));
    for method in ["call", "make", "read", "write"] {
        assert_eq!(call(&mut vm, "T", method, "()V", vec![]), Err(VastatrixError::BadConstant(name)));
    }
    assert_eq!(call(&mut vm, "T", "odd", "()V", vec![]), Err(VastatrixError::BadDescriptor));
}

#[test]
fn a_field_that_was_never_written_is_missing() {
    let mut b = ClassBuilder::new();
    b.field("x", "I");
    let class = b.class("T");
    let [ch, cl] = class.to_be_bytes();
    let x = b.field_ref("T", "x", "I");
    let [xh, xl] = x.to_be_bytes();
    let y = b.field_ref("T", "y", "I");
    let [yh, yl] = y.to_be_bytes();
    b.method("x", "()I", 1, 0, &[0xBB, ch, cl, 0xB4, xh, xl, 0xAC]);
    b.method("y", "()I", 1, 0, &[0xBB, ch, cl, 0xB4, yh, yl, 0xAC]);
    b.method("put_y", "()I", 3, 1, &[0xBB, ch, cl, 0x4B, 0x2A, 0x06, 0xB5, yh, yl, 0x2A, 0xB4, yh, yl, 0xAC]);
    let mut vm = machine_with("T", b.finish("T", "java/lang/Object"));
    assert_eq!(call(&mut vm, "T", "x", "()I", vec![]), Ok(Some(int_slot(0))));
    assert_eq!(call(&mut vm, "T", "y", "()I", vec![]), Err(VastatrixError::NoSuchField));
    assert_eq!(call(&mut vm, "T", "put_y", "()I", vec![]), Ok(Some(int_slot(3))));
}

#[test]
fn object_handles_are_never_given_twice() {
    let mut vm = machine_of(shapes());
    let shape = vm.load_or_get_class_handle("Shape".to_string()).unwrap();
    let mut seen = Vec::new();
    for round in 0..20u32 {
        let handle = if round % 3 == 0 {
            vm.create_array(vec![int_slot(1)], MethodType::Int).unwrap()
        } else {
            vm.prepare_instance(shape).unwrap()
        };
        assert!(!seen.contains(&handle));
        assert_eq!(handle, round);
        seen.push(handle);
        vm.load_or_get_class_handle("Square".to_string()).unwrap();
    }
    assert_eq!(vm.prepare_instance(9999), Err(VastatrixError::BadHandle(9999)));
    assert_eq!(vm.create_array(vec![], MethodType::Int), Ok(20));
}

#[test]
fn the_heap_tells_instances_from_arrays() {
    let mut vm = machine_of(shapes());
    let shape = vm.load_or_get_class_handle("Shape".to_string()).unwrap();
    let instance = vm.prepare_instance(shape).unwrap();
    let array = vm.create_array(vec![int_slot(1), int_slot(2)], MethodType::Int).unwrap();
    assert!(vm.get_instance(instance as usize).is_ok());
    assert_eq!(vm.get_instance(array as usize).err(), Some(VastatrixError::BadHandle(array)));
    assert_eq!(vm.get_array(instance as usize).err(), Some(VastatrixError::BadHandle(instance)));
    assert_eq!(vm.get_array(50).err(), Some(VastatrixError::BadHandle(50)));
    assert_eq!(vm.get_instance(50).err(), Some(VastatrixError::BadHandle(50)));
    assert_eq!(vm.array_load(array, 1), Ok(int_slot(2)));
    assert_eq!(vm.array_load(array, 2), Err(VastatrixError::ArrayOutOfRange));
    assert_eq!(vm.array_load(instance, 0), Err(VastatrixError::BadHandle(instance)));
    assert_eq!(vm.array_store(array, 0, int_slot(9)), Ok(()));
    assert_eq!(vm.array_store(array, 2, int_slot(9)), Err(VastatrixError::ArrayOutOfRange));
    assert_eq!(vm.array_store(instance, 0, int_slot(9)), Err(VastatrixError::BadHandle(instance)));
    assert_eq!(vm.get_array(array as usize).unwrap().1, vec![int_slot(9), int_slot(2)]);
    assert_eq!(vm.get_field(instance, "id"), Ok(int_slot(0)));
    assert_eq!(vm.get_field(instance, "nope"), Err(VastatrixError::NoSuchField));
    assert_eq!(vm.get_field(array, "id"), Err(VastatrixError::BadHandle(array)));
    assert_eq!(vm.put_field(instance, "id".to_string(), int_slot(5)), Ok(()));
    assert_eq!(vm.put_field(instance, "extra".to_string(), int_slot(6)), Ok(()));
    assert_eq!(vm.put_field(array, "id".to_string(), int_slot(5)), Err(VastatrixError::BadHandle(array)));
    assert_eq!(vm.get_field(instance, "id"), Ok(int_slot(5)));
    assert_eq!(vm.get_field(instance, "extra"), Ok(int_slot(6)));
    assert_eq!(vm.get_instance(instance as usize).unwrap().len(), 2);
}

#[test]
fn a_class_keeps_its_handle_and_knows_it() {
    let mut vm = machine_of(shapes());
    let first = vm.load_or_get_class_handle("Square".to_string()).unwrap();
    let other = vm.load_or_get_class_handle("User".to_string()).unwrap();
    assert_ne!(first, other);
    assert_eq!(vm.load_or_get_class_handle("Square".to_string()), Ok(first));
    assert_eq!(vm.get_class(first).unwrap().get_handle(), first);
    assert_eq!(vm.get_class(other).unwrap().handle, Some(other));
    assert_eq!(vm.class_name(first).unwrap(), "Square");
    assert_eq!(vm.get_class(1000).err(), Some(VastatrixError::BadHandle(1000)));
    assert_eq!(vm.class_name(1000).err(), Some(VastatrixError::BadHandle(1000)));
}

#[test]
fn the_machine_brings_its_own_classes_along() {
    let mut vm = Vastatrix::new(Classpath::new());
    let names = [
        "java/lang/Object",
        "java/lang/String",
        "java/lang/System",
        "java/lang/Throwable",
        "java/lang/Exception",
        "java/lang/RuntimeException",
        "java/lang/IllegalStateException",
        "java/lang/Integer",
        "java/lang/Class",
        "java/lang/reflect/Method",
        "java/nio/file/Path",
    ];
    for (handle, name) in names.iter().enumerate() {
        assert_eq!(vm.load_or_get_class_handle(name.to_string()), Ok(handle as u32));
        let class = vm.get_class(handle as u32).unwrap();
        assert_eq!(class.get_magic(), 0xCAFEBABE);
        assert_eq!(class.get_major(), 61);
        assert_eq!(class.resolve(2).map(|s| s.as_str()), Some(*name));
        assert_eq!(class.get_this_class(), 1);
        assert_eq!(class.get_constant_count() as usize + 1, class.get_constant_pool().len());
        assert!(class.check_links());
    }
    assert_eq!(vm.get_class(0).unwrap().get_super_class(), 0);
    let chain = ["java/lang/IllegalStateException", "java/lang/RuntimeException", "java/lang/Exception", "java/lang/Throwable", "java/lang/Object"];
    for pair in chain.windows(2) {
        let below = vm.load_or_get_class_handle(pair[0].to_string()).unwrap();
        let class = vm.get_class(below).unwrap();
        assert_eq!(class.get_super_class(), 3);
        assert_eq!(class.resolve(4).map(|s| s.as_str()), Some(pair[1]));
    }
    assert_eq!(expose_classes().len(), 11);
}

#[test]
fn a_brought_along_class_describes_its_members() {
    let table = expose_classes();
    let string = synthesize(&table[1]);
    assert_eq!(string.get_field_count(), 1);
    assert_eq!(string.get_method_count(), 4);
    let field = &string.get_fields()[0];
    assert_eq!(string.resolve(field.name_index).map(|s| s.as_str()), Some("value"));
    assert_eq!(string.resolve(field.descriptor_index).map(|s| s.as_str()), Some("[C"));
    let split = &string.get_methods()[2];
    assert_eq!(string.resolve(split.name_index).map(|s| s.as_str()), Some("split"));
    assert_eq!(
        string.resolve(split.descriptor_index).map(|s| s.as_str()),
        Some("(Ljava/lang/String;)[Ljava/lang/String;")
    );
    assert!(string.declares("equals", "(Ljava/lang/Object;)Z"));
    assert!(!string.declares("equals", "()Z"));
    assert_eq!(string.field_index("value"), Some(0));
    assert_eq!(string.field_index("values"), None);
    assert_eq!(string.handle, None);
    let object = synthesize(&table[0]);
    assert_eq!(object.get_constant_pool().len(), 5);
    assert_eq!(native_method_of("java/lang/String", "<init>", "([C)V"), Some(NativeMethod::StringInitChars));
    assert_eq!(native_method_of("java/lang/String", "<init>", "()V"), Some(NativeMethod::StringInit));
    assert_eq!(native_method_of("java/lang/Object", "<init>", "()V"), Some(NativeMethod::Init));
    assert_eq!(native_method_of("java/lang/Integer", "parseInt", "(Ljava/lang/String;)I"), Some(NativeMethod::IntegerParseInt));
    assert_eq!(native_method_of("java/lang/Object", "<init>", "(I)V"), None);
    assert_eq!(native_method_of("Shape", "<init>", "()V"), None);
}

#[test]
fn a_name_that_is_taken_is_not_defined_again() {
    let mut vm = Vastatrix::new(Classpath::new());
    let table = expose_classes();
    let r = vm.define_class("java/lang/String".to_string(), synthesize(&table[1]));
    assert_eq!(r, Err(VastatrixError::BadHandle(1)));
    let r = vm.define_class("my/String".to_string(), synthesize(&table[1]));
    assert_eq!(r, Ok(11));
    assert_eq!(vm.get_class(11).unwrap().handle, Some(11));
}

#[test]
fn a_new_instance_has_its_fields_at_zero_of_their_kind() {
    let mut b = ClassBuilder::new();
    b.field("count", "I");
    b.field("name", "Ljava/lang/String;");
    b.field("data", "[[B");
    b.field("flag", "Z");
    b.field("odd", "Q");
    b.field("long", "II");
    let seven = b.integer(-7);
    b.constant_field(0x0018, "SEVEN", "I", seven);
    b.constant_field(0x0010, "plain", "I", seven);
    b.constant_field(0x0018, "named", "I", 1);
    let long = b.long(-2);
    b.constant_field(0x0008, "WIDE", "J", long);
    let bytes = b.finish("Holder", "java/lang/Object");
    let mut vm = machine_with("Holder", bytes);
    let class = vm.load_or_get_class_handle("Holder".to_string()).unwrap();
    let instance = vm.prepare_instance(class).unwrap();
    assert_eq!(vm.get_field(instance, "count"), Ok(int_slot(0)));
    assert_eq!(
        vm.get_field(instance, "name"),
        Ok(Argument::new(0, MethodType::ClassReference { classpath: "java/lang/String".to_string() }))
    );
    assert_eq!(vm.get_field(instance, "data"), Ok(Argument::new(0, MethodType::ArrayReference)));
    assert_eq!(vm.get_field(instance, "flag"), Ok(Argument::new(0, MethodType::Boolean)));
    assert_eq!(vm.get_field(instance, "odd"), Ok(Argument::new(0, MethodType::Void)));
    assert_eq!(vm.get_field(instance, "long"), Ok(Argument::new(0, MethodType::Void)));
    assert_eq!(vm.get_field(instance, "SEVEN"), Ok(int_slot(-7)));
    assert_eq!(vm.get_field(instance, "plain"), Ok(int_slot(0)));
    assert_eq!(vm.get_field(instance, "named"), Ok(int_slot(0)));
    assert_eq!(vm.get_field(instance, "WIDE"), Ok(Argument::with_payload(-2, MethodType::Long)));
}

#[test]
fn a_field_is_resolved_in_the_class_that_declares_it() {
    let mut b = ClassBuilder::new();
    let side = b.field_ref("Square", "side", "I");
    let id = b.field_ref("Square", "id", "I");
    let nothing = b.field_ref("Square", "weight", "I");
    let plain = b.utf8("plain");
    let mut classes = shapes();
    classes.push(("F", b.finish("F", "java/lang/Object")));
    let mut vm = machine_of(classes);
    let user = vm.load_or_get_class_handle("F".to_string()).unwrap();
    let (owner, at) = vm.resolve_field(user, side).unwrap();
    assert_eq!(vm.class_name(owner).unwrap(), "Square");
    assert_eq!(at, 0);
    let (owner, at) = vm.resolve_field(user, id).unwrap();
    assert_eq!(vm.class_name(owner).unwrap(), "Shape");
    assert_eq!(at, 0);
    assert_eq!(vm.resolve_field(user, nothing), Err(VastatrixError::NoSuchField));
    assert_eq!(vm.resolve_field(user, plain), Err(VastatrixError::BadConstant(plain)));
    assert_eq!(vm.resolve_field(999, side), Err(VastatrixError::BadHandle(999)));
    let m = vm.field_ref(user, side).unwrap();
    assert_eq!((m.class.as_str(), m.name.as_str(), m.descriptor.as_str()), ("Square", "side", "I"));
}

#[test]
fn a_method_reference_resolves_to_its_declared_names() {
    let mut vm = machine_of(shapes());
    let user = vm.load_or_get_class_handle("User".to_string()).unwrap();
    let class = vm.get_class(user).unwrap();
    assert!(class.check_links());
    let mut found = 0;
    for index in 0..class.get_constant_pool().len() as u16 {
        if let Ok(m) = vm.method_ref(user, index) {
            if m.name == "twice" {
                assert_eq!((m.class.as_str(), m.descriptor.as_str()), ("Square", "(I)I"));
                let (target, descriptor) = vm.resolve_method(user, index).unwrap();
                assert_eq!(descriptor.types, vec![MethodType::Int]);
                match target {
                    Frame::Bytecode(frame) => {
                        assert_eq!(frame.method, "twice");
                        assert_eq!(frame.code, vec![0x1B, 0x1B, 0x60, 0xAC]);
                        assert_eq!(frame.locals.len(), 2);
                        assert!(frame.returns_value);
                        assert_eq!(vm.class_name(frame.class_handle).unwrap(), "Shape");
                    },
                    other => panic!("{:?}", other),
                }
                found += 1;
            }
        }
    }
    assert_eq!(found, 1);
    assert_eq!(vm.method_ref(user, 0).err(), Some(VastatrixError::BadConstant(0)));
}

#[test]
fn a_pool_with_a_dangling_reference_fails_the_link_check() {
    let pool = [10u8, 0, 9, 0, 9];
    let mut bytes = vec![0xCA, 0xFE, 0xBA, 0xBE, 0, 0, 0, 61, 0, 2];
    bytes.extend_from_slice(&pool);
    bytes.extend_from_slice(&[0, 0, 0, 0, 0, 0, 0, 0, 0, 0, 0, 0, 0, 0]);
    let class = ClassFile::new(Bytes::from(bytes)).unwrap();
    assert!(!class.check_links());
}

#[test]
fn every_property_reads_17_and_parses_to_17() {
    let mut vm = Vastatrix::new(Classpath::new());
    let key = new_string(&mut vm, "java.version").unwrap();
    match call_native(&mut vm, NativeMethod::SystemGetProperty, &vec![key]).unwrap() {
        NativeOutcome::Return(value) => assert_eq!(text_of(&vm, &value), "17"),
        other => panic!("{:?}", other),
    }
    let property = match call_native(&mut vm, NativeMethod::SystemGetProperty, &vec![]).unwrap() {
        NativeOutcome::Return(value) => value,
        other => panic!("{:?}", other),
    };
    match call_native(&mut vm, NativeMethod::IntegerParseInt, &vec![property]).unwrap() {
        NativeOutcome::Return(value) => assert_eq!(value, int_slot(17)),
        other => panic!("{:?}", other),
    }
}

#[test]
fn parse_int_reads_decimal_digits() {
    let cases: Vec<(&str, Option<i32>)> = vec![
        ("0", Some(0)),
        ("40", Some(40)),
        ("-40", Some(-40)),
        ("+40", Some(40)),
        ("007", Some(7)),
        ("-0", Some(0)),
        ("2147483647", Some(2147483647)),
        ("-2147483648", Some(-2147483648)),
        ("2147483648", None),
        ("-2147483649", None),
        ("99999999999999999999999999", None),
        ("", None),
        ("-", None),
        ("+", None),
        ("--1", None),
        ("1-", None),
        ("12a", None),
        (" 12", None),
        ("1 2", None),
        ("\u{661}", None),
    ];
    for (text, expected) in cases {
        let chars: Vec<char> = text.chars().collect();
        assert_eq!(parse_int(&chars), expected, "{:?}", text);
        let mut vm = Vastatrix::new(Classpath::new());
        let string = new_string(&mut vm, text).unwrap();
        let r = call_native(&mut vm, NativeMethod::IntegerParseInt, &vec![string]);
        match expected {
            Some(v) => match r.unwrap() {
                NativeOutcome::Return(value) => assert_eq!(value, int_slot(v)),
                other => panic!("{:?}", other),
            },
            None => assert_eq!(r.err(), Some(VastatrixError::NumberFormat)),
        }
    }
    let mut vm = Vastatrix::new(Classpath::new());
    assert_eq!(
        call_native(&mut vm, NativeMethod::IntegerParseInt, &vec![]).err(),
        Some(VastatrixError::MissingArgument)
    );
    assert_eq!(
        call_native(&mut vm, NativeMethod::IntegerParseInt, &vec![int_slot(3)]).err(),
        Some(VastatrixError::TypeMismatch)
    );
}

#[test]
fn strings_are_equal_when_their_characters_are() {
    let mut vm = Vastatrix::new(Classpath::new());
    let a = new_string(&mut vm, "hello").unwrap();
    let b = new_string(&mut vm, "hello").unwrap();
    let c = new_string(&mut vm, "hellp").unwrap();
    let d = new_string(&mut vm, "hell").unwrap();
    let e = new_string(&mut vm, "").unwrap();
    let equals = |vm: &mut Vastatrix, x: &Argument, y: &Argument| {
        match call_native(vm, NativeMethod::StringEquals, &vec![x.clone(), y.clone()]).unwrap() {
            NativeOutcome::Return(value) => value,
            other => panic!("{:?}", other),
        }
    };
    let yes = Argument::new(1, MethodType::Boolean);
    let no = Argument::new(0, MethodType::Boolean);
    assert_ne!(a, b);
    assert_eq!(equals(&mut vm, &a, &b), yes);
    assert_eq!(equals(&mut vm, &a, &a), yes);
    assert_eq!(equals(&mut vm, &a, &c), no);
    assert_eq!(equals(&mut vm, &a, &d), no);
    assert_eq!(equals(&mut vm, &d, &a), no);
    assert_eq!(equals(&mut vm, &e, &e), yes);
    assert_eq!(equals(&mut vm, &e, &a), no);
    assert_eq!(
        call_native(&mut vm, NativeMethod::StringEquals, &vec![a.clone()]).err(),
        Some(VastatrixError::MissingArgument)
    );
    assert_eq!(
        call_native(&mut vm, NativeMethod::StringEquals, &vec![a, int_slot(1)]).err(),
        Some(VastatrixError::TypeMismatch)
    );
}

#[test]
fn split_cuts_a_string_at_each_delimiter() {
    let cases: Vec<(&str, &str, Vec<&str>)> = vec![
        ("a,b,c", ",", vec!["a", "b", "c"]),
        ("a,b,,c", ",", vec!["a", "b", "", "c"]),
        (",a,", ",", vec!["", "a", ""]),
        ("abc", ",", vec!["abc"]),
        ("", ",", vec![""]),
        ("a--b-c", "--", vec!["a", "b-c"]),
        ("aaaa", "aa", vec!["", "", ""]),
        ("aaa", "aa", vec!["", "a"]),
        ("abc", "", vec!["abc"]),
        ("ab", "abc", vec!["ab"]),
        ("one two", " ", vec!["one", "two"]),
    ];
    for (text, delimiter, pieces) in cases {
        let mut vm = Vastatrix::new(Classpath::new());
        let this = new_string(&mut vm, text).unwrap();
        let other = new_string(&mut vm, delimiter).unwrap();
        let result = match call_native(&mut vm, NativeMethod::StringSplit, &vec![this, other]).unwrap() {
            NativeOutcome::Return(value) => value,
            other => panic!("{:?}", other),
        };
        assert!(result.is(MethodType::ArrayReference));
        let array = vm.get_array(result.value() as usize).unwrap();
        assert_eq!(array.0, MethodType::ClassReference { classpath: "java/lang/String".to_string() });
        let found: Vec<String> = array.1.iter().map(|s| text_of(&vm, s)).collect();
        assert_eq!(found, pieces, "{:?} {:?}", text, delimiter);
    }
}

#[test]
fn the_constructors_of_strings_set_their_value() {
    let mut vm = Vastatrix::new(Classpath::new());
    let class = vm.load_or_get_class_handle("java/lang/String".to_string()).unwrap();
    let instance = vm.prepare_instance(class).unwrap();
    let this = Argument::new(instance, MethodType::ClassReference { classpath: "java/lang/String".to_string() });
    assert_eq!(vm.get_field(instance, "value"), Ok(Argument::new(0, MethodType::ArrayReference)));
    call_native(&mut vm, NativeMethod::StringInit, &vec![this.clone()]).unwrap();
    assert_eq!(text_of(&vm, &this), "");
    let letters = vm
        .create_array(
            vec![Argument::new(111u32, MethodType::Char), Argument::new(107u32, MethodType::Char)],
            MethodType::Char,
        )
        .unwrap();
    let from = Argument::new(letters, MethodType::ArrayReference);
    call_native(&mut vm, NativeMethod::StringInitChars, &vec![this.clone(), from.clone()]).unwrap();
    assert_eq!(text_of(&vm, &this), "ok");
    let value = vm.get_field(instance, "value").unwrap();
    assert_ne!(value, from);
    vm.array_store(letters, 0, Argument::new(110u32, MethodType::Char)).unwrap();
    assert_eq!(text_of(&vm, &this), "ok");
    assert_eq!(
        call_native(&mut vm, NativeMethod::StringInitChars, &vec![this.clone(), this.clone()]).err(),
        Some(VastatrixError::TypeMismatch)
    );
    assert_eq!(
        call_native(&mut vm, NativeMethod::StringInitChars, &vec![this]).err(),
        Some(VastatrixError::MissingArgument)
    );
    match call_native(&mut vm, NativeMethod::Init, &vec![]).unwrap() {
        NativeOutcome::Return(value) => assert!(value.void()),
        other => panic!("{:?}", other),
    }
}

#[test]
fn a_method_found_by_reflection_runs_when_it_is_invoked() {
    let mut b = ClassBuilder::new();
    b.method("go", "(I)V", 1, 1, &[0x06, 0xAC]);
    b.method("go", "()V", 1, 0, &[0x07, 0xAC]);
    let mut vm = machine_with("app/Main", b.finish("app/Main", "java/lang/Object"));
    let name = new_string(&mut vm, "app.Main").unwrap();
    let class = match call_native(&mut vm, NativeMethod::ClassForName, &vec![name.clone()]).unwrap() {
        NativeOutcome::Return(value) => value,
        other => panic!("{:?}", other),
    };
    assert!(class.is(MethodType::ClassReference { classpath: "java/lang/Class".to_string() }));
    assert_eq!(vm.get_field(class.value() as u32, "classpath"), Ok(name));
    let int_name = new_string(&mut vm, "I").unwrap();
    let int_class = match call_native(&mut vm, NativeMethod::ClassForName, &vec![int_name]).unwrap() {
        NativeOutcome::Return(value) => value,
        other => panic!("{:?}", other),
    };
    let method_name = new_string(&mut vm, "go").unwrap();
    let types = vm
        .create_array(vec![int_class], MethodType::ClassReference { classpath: "java/lang/Class".to_string() })
        .unwrap();
    let types = Argument::new(types, MethodType::ArrayReference);
    let method = match call_native(
        &mut vm,
        NativeMethod::ClassGetMethod,
        &vec![class.clone(), method_name.clone(), types],
    )
    .unwrap()
    {
        NativeOutcome::Return(value) => value,
        other => panic!("{:?}", other),
    };
    assert!(method.is(MethodType::ClassReference { classpath: "java/lang/reflect/Method".to_string() }));
    assert_eq!(vm.get_field(method.value() as u32, "methodname"), Ok(method_name));
    let frame: BytecodeFrame = match call_native(&mut vm, NativeMethod::MethodInvoke, &vec![method]).unwrap() {
        NativeOutcome::Call(frame) => frame,
        other => panic!("{:?}", other),
    };
    assert_eq!(frame.method, "go");
    assert_eq!(frame.code, vec![0x06, 0xAC]);
    assert_eq!(vm.class_name(frame.class_handle).unwrap(), "app/Main");
    assert_eq!(
        call_native(&mut vm, NativeMethod::ClassGetMethod, &vec![class]).err(),
        Some(VastatrixError::MissingArgument)
    );
}

#[test]
fn a_program_calls_the_methods_of_the_host() {
    let mut b = ClassBuilder::new();
    let text = b.string("a b");
    let number = b.string("-123");
    let blank = b.string(" ");
    let split = b.method_ref("java/lang/String", "split", "(Ljava/lang/String;)[Ljava/lang/String;");
    let [sh, sl] = split.to_be_bytes();
    let equals = b.method_ref("java/lang/String", "equals", "(Ljava/lang/Object;)Z");
    let [eh, el] = equals.to_be_bytes();
    let parse = b.method_ref("java/lang/Integer", "parseInt", "(Ljava/lang/String;)I");
    let [ph, pl] = parse.to_be_bytes();
    b.method("pieces", "()I", 2, 0, &[0x12, text as u8, 0x12, blank as u8, 0xB6, sh, sl, 0xBE, 0xAC]);
    b.method("same", "()V", 2, 0, &[0x12, text as u8, 0x12, text as u8, 0xB6, eh, el, 0xB1]);
    b.method("parse", "()I", 2, 0, &[0x12, number as u8, 0xB8, ph, pl, 0xAC]);
    b.method("no_number", "()I", 2, 0, &[0x12, text as u8, 0xB8, ph, pl, 0xAC]);
    let mut vm = machine_with("T", b.finish("T", "java/lang/Object"));
    assert_eq!(call(&mut vm, "T", "pieces", "()I", vec![]), Ok(Some(int_slot(2))));
    assert_eq!(call(&mut vm, "T", "parse", "()I", vec![]), Ok(Some(int_slot(-123))));
    assert_eq!(call(&mut vm, "T", "no_number", "()I", vec![]), Err(VastatrixError::NumberFormat));
    let mut thread = Vastatrick::start(&mut vm, "T".to_string(), "same", "()V", vec![]).unwrap();
    thread.run(&mut vm, 3).unwrap();
    assert_eq!(thread.frames[0].stack, vec![Argument::new(1, MethodType::Boolean)]);
}

#[test]
fn the_main_class_runs_from_its_dotted_name() {
    let mut b = ClassBuilder::new();
    b.method("main", "([Ljava/lang/String;)V", 1, 1, &[0x03, 0x57, 0xB1]);
    let mut vm = machine_with("app/Main", b.finish("app/Main", "java/lang/Object"));
    let mut thread = Vastatrick::new();
    assert_eq!(
        thread.run_main_class(&mut vm, "app.Main".to_string(), 100),
        Ok(Some(Argument::new(0, MethodType::Void)))
    );
    assert_eq!(thread.run_main_class(&mut vm, "app.Main".to_string(), 2), Ok(None));
    assert_eq!(thread.frames.len(), 1);
    assert_eq!(
        thread.run_main_class(&mut vm, "app.Other".to_string(), 100),
        Err(VastatrixError::ClasspathIncomplete)
    );
    assert_eq!(
        thread.run_main_class(&mut vm, "java.lang.Object".to_string(), 100),
        Err(VastatrixError::NoSuchMethod)
    );
}

#[test]
fn a_circle_of_classes_ends_the_search() {
    let mut a = ClassBuilder::new();
    a.method("here", "()I", 1, 0, &[0x04, 0xAC]);
    let a = a.finish("A", "B");
    let b = ClassBuilder::new().finish("B", "A");
    let mut vm = machine_of(vec![("A", a), ("B", b)]);
    assert_eq!(call(&mut vm, "B", "here", "()I", vec![]), Ok(Some(int_slot(1))));
    assert_eq!(call(&mut vm, "B", "nowhere", "()I", vec![]), Err(VastatrixError::NoSuchMethod));
    let user = vm.load_or_get_class_handle("A".to_string()).unwrap();
    assert_eq!(vm.lookup_field(user, "nothing"), Err(VastatrixError::NoSuchField));
}

#[test]
fn an_error_leaves_no_frame() {
    let mut b = ClassBuilder::new();
    b.method("bad", "()V", 1, 0, &[0x03, 0x03, 0x6C, 0xB1]);
    let bad = b.method_ref("T", "bad", "()V");
    let [bh, bl] = bad.to_be_bytes();
    b.method("m", "()V", 2, 0, &[0xB8, bh, bl, 0xB1]);
    let mut vm = machine_with("T", b.finish("T", "java/lang/Object"));
    let mut thread = Vastatrick::start(&mut vm, "T".to_string(), "m", "()V", vec![]).unwrap();
    assert_eq!(thread.step(&mut vm), Ok(None));
    assert_eq!(thread.frames.len(), 2);
    assert_eq!(thread.run(&mut vm, 10), Err(VastatrixError::StackOverflow));
    assert!(thread.frames.is_empty());
}
