//! The interpreter: one thread of execution, with its stack of frames, that
//! runs on a heap.

use crate::bridge::array_ref;
use crate::bridge::array_ref_of;
use crate::bridge::call_native;
use crate::bridge::instance_ref;
use crate::bridge::lemma_make_string_extends;
use crate::bridge::lemma_native_extends;
use crate::bridge::instance_ref_of;
use crate::bridge::make_string;
use crate::bridge::native;
use crate::bridge::new_string;
use crate::bridge::with_slashes;
use crate::bridge::with_slashes_of;
use crate::bridge::NativeOutcome;
use crate::bridge::NativeResult;
use crate::buffer::chars_of;
use crate::buffer::string_of;
use crate::class::frame::BytecodeFrame;
use crate::class::frame::FrameModel;
use crate::class::frame::OP_ARRAYLENGTH;
use crate::class::frame::OP_GETFIELD;
use crate::class::frame::OP_IALOAD;
use crate::class::frame::OP_IASTORE;
use crate::class::frame::OP_INVOKESPECIAL;
use crate::class::frame::OP_INVOKESTATIC;
use crate::class::frame::OP_INVOKEVIRTUAL;
use crate::class::frame::OP_IRETURN;
use crate::class::frame::OP_LDC;
use crate::class::frame::OP_NEW;
use crate::class::frame::OP_NEWARRAY;
use crate::class::frame::OP_PUTFIELD;
use crate::class::frame::OP_RETURN;
use crate::class::method::descriptor_of;
use crate::class::method::Argument;
use crate::class::method::Descriptor;
use crate::class::method::Kind;
use crate::class::method::MethodType;
use crate::class::method::Slot;
use crate::vastatrix::lemma_load_valid;
use crate::vastatrix::lemma_lookup_extends;
use crate::vastatrix::lemma_steps_extend;
use crate::vastatrix::Frame;
use crate::vastatrix::FrameTarget;
use crate::vastatrix::LoadedConstant;
use crate::vastatrix::LoadedConstantModel;
use crate::vastatrix::Vastatrix;
use crate::vastatrix::VmModel;
use crate::vastatrix::SUPER_CHAIN_LIMIT;
use crate::VastatrixError;
use vstd::prelude::*;

verus! {

/// The kind of the elements of an array that `newarray` makes for the type
/// code `atype`.
pub open spec fn array_kind(atype: u8) -> Option<Kind> {
    if atype == 4 {
        Some(Kind::Boolean)
    } else if atype == 5 {
        Some(Kind::Char)
    } else if atype == 6 {
        Some(Kind::Float)
    } else if atype == 7 {
        Some(Kind::Double)
    } else if atype == 8 {
        Some(Kind::Byte)
    } else if atype == 9 {
        Some(Kind::Short)
    } else if atype == 10 {
        Some(Kind::Int)
    } else if atype == 11 {
        Some(Kind::Long)
    } else {
        None
    }
}

/// The kind of the elements of an array that `newarray` makes for the type
/// code `atype`.
pub fn array_kind_of(atype: u8) -> (r: Option<MethodType>)
    ensures
        match array_kind(atype) {
            Some(k) => r matches Some(out) && out@ == k,
            None => r is None,
        },
{
    if atype == 4 {
        Some(MethodType::Boolean)
    } else if atype == 5 {
        Some(MethodType::Char)
    } else if atype == 6 {
        Some(MethodType::Float)
    } else if atype == 7 {
        Some(MethodType::Double)
    } else if atype == 8 {
        Some(MethodType::Byte)
    } else if atype == 9 {
        Some(MethodType::Short)
    } else if atype == 10 {
        Some(MethodType::Int)
    } else if atype == 11 {
        Some(MethodType::Long)
    } else {
        None
    }
}

/// `n` slots of the kind `kind` with the payload 0.
pub open spec fn zero_slots(n: nat, kind: Kind) -> Seq<Slot> {
    Seq::new(n, |i: int| Slot { value: 0, kind })
}

/// `n` slots of the kind `kind` with the payload 0.
pub fn zero_slots_of(n: usize, kind: &MethodType) -> (r: Vec<Argument>)
    ensures
        r.deep_view() == zero_slots(n as nat, kind@),
{
    let mut out: Vec<Argument> = Vec::new();
    let mut i: usize = 0;
    while i < n
        invariant
            i <= n,
            out.len() == i,
            forall|k: int| 0 <= k < i ==> (#[trigger] out[k])@ == (Slot { value: 0, kind: kind@ }),
        decreases n - i,
    {
        out.push(Argument::with_payload(0, kind.clone()));
        i = i + 1;
    }
    assert(out.deep_view() =~= zero_slots(n as nat, kind@));
    out
}

/// The pool index made of the two bytes behind the instruction.
pub open spec fn operand16(f: FrameModel) -> Result<u16, VastatrixError> {
    match f.fetch(1) {
        Err(e) => Err(e),
        Ok(high) => match f.fetch(2) {
            Err(e) => Err(e),
            Ok(low) => Ok((high * 0x100 + low) as u16),
        },
    }
}

/// The pool index made of the two bytes behind the instruction.
pub fn operand16_of(f: &BytecodeFrame) -> (r: Result<u16, VastatrixError>)
    ensures
        r == operand16(f@),
{
    let high = f.fetch(1)?;
    let low = f.fetch(2)?;
    Ok(high as u16 * 0x100 + low as u16)
}

/// The reference on top of the operand stack, which has to be of the kind
/// that `array` asks for: a reference to an array, or to an instance.
pub open spec fn pop_object(f: FrameModel, array: bool) -> Result<(FrameModel, u32), VastatrixError> {
    match f.pop_ref() {
        Err(e) => Err(e),
        Ok((g, slot)) => if array == (slot.kind is ArrayReference) {
            Ok((g, slot.value as u32))
        } else {
            Err(VastatrixError::TypeMismatch)
        },
    }
}

/// Takes a reference of the wanted kind off the operand stack.
pub fn pop_object_of(f: &mut BytecodeFrame, array: bool) -> (r: Result<u32, VastatrixError>)
    ensures
        match pop_object(old(f)@, array) {
            Ok((g, h)) => r == Ok::<u32, VastatrixError>(h) && final(f)@ == g,
            Err(e) => r == Err::<u32, VastatrixError>(e),
        },
{
    let slot = f.pop_ref()?;
    let is_array = slot.is(MethodType::ArrayReference);
    if array == is_array {
        Ok(slot.reference())
    } else {
        Err(VastatrixError::TypeMismatch)
    }
}

/// Whether `op` is an instruction that touches the heap and the running
/// frame, and no other frame.
pub open spec fn is_heap_op(op: u8) -> bool {
    ||| op == OP_LDC
    ||| op == OP_NEWARRAY
    ||| op == OP_IALOAD
    ||| op == OP_IASTORE
    ||| op == OP_ARRAYLENGTH
    ||| op == OP_NEW
    ||| op == OP_GETFIELD
    ||| op == OP_PUTFIELD
}

/// `ldc`: puts the constant at the pool index behind the instruction on the
/// operand stack: an integer as it is, and a text as a new string.
pub open spec fn ldc(vm: VmModel, f: FrameModel) -> Result<(VmModel, FrameModel), VastatrixError> {
    match f.fetch(1) {
        Err(e) => Err(e),
        Ok(index) => match vm.constant(f.class_handle, index as u16) {
            Err(e) => Err(e),
            Ok(LoadedConstantModel::Int(v)) => match f.push(Slot::of_int(v)) {
                Err(e) => Err(e),
                Ok(g) => match g.jump(f.ip + 2) {
                    Err(e) => Err(e),
                    Ok(h) => Ok((vm, h)),
                },
            },
            Ok(LoadedConstantModel::Text(text)) => match make_string(vm, text) {
                Err(e) => Err(e),
                Ok((after, slot)) => match f.push(slot) {
                    Err(e) => Err(e),
                    Ok(g) => match g.jump(f.ip + 2) {
                        Err(e) => Err(e),
                        Ok(h) => Ok((after, h)),
                    },
                },
            },
        },
    }
}

/// `newarray`: takes a length off the operand stack and puts a reference to a
/// new array of that many zeros there.
pub open spec fn newarray(vm: VmModel, f: FrameModel) -> Result<
    (VmModel, FrameModel),
    VastatrixError,
> {
    match f.fetch(1) {
        Err(e) => Err(e),
        Ok(atype) => match f.pop_int() {
            Err(e) => Err(e),
            Ok((g, count)) => match array_kind(atype) {
                None => Err(VastatrixError::BadArrayType(atype)),
                Some(kind) => if count < 0 {
                    Err(VastatrixError::ArrayOutOfRange)
                } else {
                    match vm.create_array(zero_slots(count as nat, kind), kind) {
                        Err(e) => Err(e),
                        Ok((after, handle)) => match g.push(array_ref(handle)) {
                            Err(e) => Err(e),
                            Ok(h) => match h.jump(f.ip + 2) {
                                Err(e) => Err(e),
                                Ok(k) => Ok((after, k)),
                            },
                        },
                    }
                },
            },
        },
    }
}

/// `iaload`: takes an index and a reference to an array off the operand
/// stack and puts the element there.
pub open spec fn iaload(vm: VmModel, f: FrameModel) -> Result<(VmModel, FrameModel), VastatrixError> {
    match f.pop_int() {
        Err(e) => Err(e),
        Ok((g, index)) => match pop_object(g, true) {
            Err(e) => Err(e),
            Ok((h, array)) => match vm.array_load(array, index) {
                Err(e) => Err(e),
                Ok(slot) => match h.push(slot) {
                    Err(e) => Err(e),
                    Ok(k) => match k.jump(f.ip + 1) {
                        Err(e) => Err(e),
                        Ok(l) => Ok((vm, l)),
                    },
                },
            },
        },
    }
}

/// `iastore`: takes an integer, an index and a reference to an array off the
/// operand stack and writes the integer to the element.
pub open spec fn iastore(vm: VmModel, f: FrameModel) -> Result<
    (VmModel, FrameModel),
    VastatrixError,
> {
    match f.pop_int() {
        Err(e) => Err(e),
        Ok((g, value)) => match g.pop_int() {
            Err(e) => Err(e),
            Ok((h, index)) => match pop_object(h, true) {
                Err(e) => Err(e),
                Ok((k, array)) => match vm.array_store(array, index, Slot::of_int(value)) {
                    Err(e) => Err(e),
                    Ok(after) => match k.jump(f.ip + 1) {
                        Err(e) => Err(e),
                        Ok(l) => Ok((after, l)),
                    },
                },
            },
        },
    }
}

/// `arraylength`: takes a reference to an array off the operand stack and
/// puts the length of the array there.
pub open spec fn arraylength(vm: VmModel, f: FrameModel) -> Result<
    (VmModel, FrameModel),
    VastatrixError,
> {
    match pop_object(f, true) {
        Err(e) => Err(e),
        Ok((g, array)) => match vm.array(array as int) {
            Err(e) => Err(e),
            Ok((_, elements)) => if elements.len() > i32::MAX {
                Err(VastatrixError::ArrayOutOfRange)
            } else {
                match g.push(Slot::of_int(elements.len() as int)) {
                    Err(e) => Err(e),
                    Ok(h) => match h.jump(f.ip + 1) {
                        Err(e) => Err(e),
                        Ok(k) => Ok((vm, k)),
                    },
                }
            },
        },
    }
}

/// `new`: loads the class that the pool index behind the instruction stands
/// for, makes an instance of it, and puts a reference to the instance on the
/// operand stack.
pub open spec fn new_instance(vm: VmModel, f: FrameModel) -> Result<
    (VmModel, FrameModel),
    VastatrixError,
> {
    match operand16(f) {
        Err(e) => Err(e),
        Ok(index) => match vm.class_ref(f.class_handle, index) {
            Err(e) => Err(e),
            Ok(name) => match vm.load(name) {
                Err(e) => Err(e),
                Ok((vm1, class)) => match vm1.prepare_instance(class) {
                    Err(e) => Err(e),
                    Ok((vm2, handle)) => match f.push(instance_ref(handle, name)) {
                        Err(e) => Err(e),
                        Ok(g) => match g.jump(f.ip + 3) {
                            Err(e) => Err(e),
                            Ok(h) => Ok((vm2, h)),
                        },
                    },
                },
            },
        },
    }
}

/// `getfield`: takes a reference to an instance off the operand stack and
/// puts the slot of the field there that the pool index behind the instruction
/// names.
pub open spec fn getfield(vm: VmModel, f: FrameModel) -> Result<
    (VmModel, FrameModel),
    VastatrixError,
> {
    match operand16(f) {
        Err(e) => Err(e),
        Ok(index) => match vm.field_ref(f.class_handle, index) {
            Err(e) => Err(e),
            Ok(field) => match pop_object(f, false) {
                Err(e) => Err(e),
                Ok((g, instance)) => match vm.get_field(instance, field.name) {
                    Err(e) => Err(e),
                    Ok(slot) => match g.push(slot) {
                        Err(e) => Err(e),
                        Ok(h) => match h.jump(f.ip + 3) {
                            Err(e) => Err(e),
                            Ok(k) => Ok((vm, k)),
                        },
                    },
                },
            },
        },
    }
}

/// `putfield`: takes a slot and a reference to an instance off the operand
/// stack and writes the slot to the field that the pool index behind the
/// instruction names.
pub open spec fn putfield(vm: VmModel, f: FrameModel) -> Result<
    (VmModel, FrameModel),
    VastatrixError,
> {
    match operand16(f) {
        Err(e) => Err(e),
        Ok(index) => match vm.field_ref(f.class_handle, index) {
            Err(e) => Err(e),
            Ok(field) => match f.pop() {
                Err(e) => Err(e),
                Ok((g, value)) => match pop_object(g, false) {
                    Err(e) => Err(e),
                    Ok((h, instance)) => match vm.put_field(instance, field.name, value) {
                        Err(e) => Err(e),
                        Ok(after) => match h.jump(f.ip + 3) {
                            Err(e) => Err(e),
                            Ok(k) => Ok((after, k)),
                        },
                    },
                },
            },
        },
    }
}

/// The heap and the running frame after the instruction `op`, which touches
/// the heap.
#[verifier::opaque]
pub open spec fn heap_step(vm: VmModel, f: FrameModel, op: u8) -> Result<
    (VmModel, FrameModel),
    VastatrixError,
> {
    if op == OP_LDC {
        ldc(vm, f)
    } else if op == OP_NEWARRAY {
        newarray(vm, f)
    } else if op == OP_IALOAD {
        iaload(vm, f)
    } else if op == OP_IASTORE {
        iastore(vm, f)
    } else if op == OP_ARRAYLENGTH {
        arraylength(vm, f)
    } else if op == OP_NEW {
        new_instance(vm, f)
    } else if op == OP_GETFIELD {
        getfield(vm, f)
    } else if op == OP_PUTFIELD {
        putfield(vm, f)
    } else {
        Err(VastatrixError::UnknownOpcode(op))
    }
}

/// Runs `ldc`.
fn run_ldc(vm: &mut Vastatrix, f: &mut BytecodeFrame) -> (r: Result<(), VastatrixError>)
    ensures
        match ldc(old(vm)@, old(f)@) {
            Ok((after, g)) => r is Ok && final(vm)@ == after && final(f)@ == g,
            Err(e) => r == Err::<(), VastatrixError>(e),
        },
{
    let next = f.ip as i64 + 2;
    let index = f.fetch(1)?;
    let constant = vm.constant(f.class_handle, index as u16)?;
    match constant {
        LoadedConstant::Int(v) => {
            f.push(Argument::new(v, MethodType::Int))?;
        },
        LoadedConstant::Text(text) => {
            let slot = new_string(vm, text.as_str())?;
            f.push(slot)?;
        },
    }
    f.jump(next)
}

/// Runs `newarray`.
fn run_newarray(vm: &mut Vastatrix, f: &mut BytecodeFrame) -> (r: Result<(), VastatrixError>)
    ensures
        match newarray(old(vm)@, old(f)@) {
            Ok((after, g)) => r is Ok && final(vm)@ == after && final(f)@ == g,
            Err(e) => r == Err::<(), VastatrixError>(e),
        },
{
    let next = f.ip as i64 + 2;
    let atype = f.fetch(1)?;
    let count = f.pop_int()?;
    let kind = match array_kind_of(atype) {
        Some(kind) => kind,
        None => {
            return Err(VastatrixError::BadArrayType(atype));
        },
    };
    if count < 0 {
        return Err(VastatrixError::ArrayOutOfRange);
    }
    let elements = zero_slots_of(count as usize, &kind);
    let handle = vm.create_array(elements, kind)?;
    f.push(array_ref_of(handle))?;
    f.jump(next)
}

/// Runs `iaload`.
fn run_iaload(vm: &mut Vastatrix, f: &mut BytecodeFrame) -> (r: Result<(), VastatrixError>)
    ensures
        match iaload(old(vm)@, old(f)@) {
            Ok((after, g)) => r is Ok && final(vm)@ == after && final(f)@ == g,
            Err(e) => r == Err::<(), VastatrixError>(e),
        },
{
    let next = f.ip as i64 + 1;
    let index = f.pop_int()?;
    let array = pop_object_of(f, true)?;
    if index < 0 {
        vm.get_array(array as usize)?;
        return Err(VastatrixError::ArrayOutOfRange);
    }
    let slot = vm.array_load(array, index as usize)?;
    f.push(slot)?;
    f.jump(next)
}

/// Runs `iastore`.
fn run_iastore(vm: &mut Vastatrix, f: &mut BytecodeFrame) -> (r: Result<(), VastatrixError>)
    ensures
        match iastore(old(vm)@, old(f)@) {
            Ok((after, g)) => r is Ok && final(vm)@ == after && final(f)@ == g,
            Err(e) => r == Err::<(), VastatrixError>(e),
        },
{
    let next = f.ip as i64 + 1;
    let value = f.pop_int()?;
    let index = f.pop_int()?;
    let array = pop_object_of(f, true)?;
    if index < 0 {
        vm.get_array(array as usize)?;
        return Err(VastatrixError::ArrayOutOfRange);
    }
    vm.array_store(array, index as usize, Argument::new(value, MethodType::Int))?;
    f.jump(next)
}

/// Runs `arraylength`.
fn run_arraylength(vm: &mut Vastatrix, f: &mut BytecodeFrame) -> (r: Result<(), VastatrixError>)
    ensures
        match arraylength(old(vm)@, old(f)@) {
            Ok((after, g)) => r is Ok && final(vm)@ == after && final(f)@ == g,
            Err(e) => r == Err::<(), VastatrixError>(e),
        },
{
    let next = f.ip as i64 + 1;
    let array = pop_object_of(f, true)?;
    let length = {
        let found = vm.get_array(array as usize)?;
        found.1.len()
    };
    if length > 0x7fff_ffff {
        return Err(VastatrixError::ArrayOutOfRange);
    }
    f.push(Argument::new(length as i32, MethodType::Int))?;
    f.jump(next)
}

/// Runs `new`.
fn run_new(vm: &mut Vastatrix, f: &mut BytecodeFrame) -> (r: Result<(), VastatrixError>)
    ensures
        match new_instance(old(vm)@, old(f)@) {
            Ok((after, g)) => r is Ok && final(vm)@ == after && final(f)@ == g,
            Err(e) => r == Err::<(), VastatrixError>(e),
        },
{
    let next = f.ip as i64 + 3;
    let index = operand16_of(f)?;
    let name = vm.class_ref(f.class_handle, index)?;
    let class = vm.load_or_get_class_handle(name.clone())?;
    let handle = vm.prepare_instance(class)?;
    f.push(instance_ref_of(handle, name.as_str()))?;
    f.jump(next)
}

/// Runs `getfield`.
fn run_getfield(vm: &mut Vastatrix, f: &mut BytecodeFrame) -> (r: Result<(), VastatrixError>)
    ensures
        match getfield(old(vm)@, old(f)@) {
            Ok((after, g)) => r is Ok && final(vm)@ == after && final(f)@ == g,
            Err(e) => r == Err::<(), VastatrixError>(e),
        },
{
    let next = f.ip as i64 + 3;
    let index = operand16_of(f)?;
    let field = vm.field_ref(f.class_handle, index)?;
    let instance = pop_object_of(f, false)?;
    let slot = vm.get_field(instance, field.name.as_str())?;
    f.push(slot)?;
    f.jump(next)
}

/// Runs `putfield`.
fn run_putfield(vm: &mut Vastatrix, f: &mut BytecodeFrame) -> (r: Result<(), VastatrixError>)
    ensures
        match putfield(old(vm)@, old(f)@) {
            Ok((after, g)) => r is Ok && final(vm)@ == after && final(f)@ == g,
            Err(e) => r == Err::<(), VastatrixError>(e),
        },
{
    let next = f.ip as i64 + 3;
    let index = operand16_of(f)?;
    let field = vm.field_ref(f.class_handle, index)?;
    let value = f.pop()?;
    let instance = pop_object_of(f, false)?;
    vm.put_field(instance, field.name, value)?;
    f.jump(next)
}

/// Runs the instruction `op`, which touches the heap.
pub fn run_heap_step(vm: &mut Vastatrix, f: &mut BytecodeFrame, op: u8) -> (r: Result<
    (),
    VastatrixError,
>)
    ensures
        match heap_step(old(vm)@, old(f)@, op) {
            Ok((after, g)) => r is Ok && final(vm)@ == after && final(f)@ == g,
            Err(e) => r == Err::<(), VastatrixError>(e),
        },
{
    reveal(heap_step);
    if op == OP_LDC {
        run_ldc(vm, f)
    } else if op == OP_NEWARRAY {
        run_newarray(vm, f)
    } else if op == OP_IALOAD {
        run_iaload(vm, f)
    } else if op == OP_IASTORE {
        run_iastore(vm, f)
    } else if op == OP_ARRAYLENGTH {
        run_arraylength(vm, f)
    } else if op == OP_NEW {
        run_new(vm, f)
    } else if op == OP_GETFIELD {
        run_getfield(vm, f)
    } else if op == OP_PUTFIELD {
        run_putfield(vm, f)
    } else {
        Err(VastatrixError::UnknownOpcode(op))
    }
}

/// The frame without the top `n` slots of its operand stack, and those
/// slots, the lowest first.
pub open spec fn take_arguments(f: FrameModel, n: nat) -> Result<
    (FrameModel, Seq<Slot>),
    VastatrixError,
> {
    if f.stack.len() < n {
        Err(VastatrixError::StackUnderflow)
    } else {
        Ok(
            (
                FrameModel { stack: f.stack.take(f.stack.len() - n), ..f },
                f.stack.skip(f.stack.len() - n),
            ),
        )
    }
}

/// The frame with the slots `args` in its first local variables.
pub open spec fn with_arguments(f: FrameModel, args: Seq<Slot>) -> Result<
    FrameModel,
    VastatrixError,
> {
    if args.len() > f.locals.len() {
        Err(VastatrixError::LocalOutOfRange)
    } else {
        Ok(
            FrameModel {
                locals: Seq::new(
                    f.locals.len(),
                    |i: int|
                        if i < args.len() {
                            args[i]
                        } else {
                            f.locals[i]
                        },
                ),
                ..f
            },
        )
    }
}

/// Takes the top `n` slots off the operand stack, the lowest first.
pub fn take_arguments_of(f: &mut BytecodeFrame, n: usize) -> (r: Result<
    Vec<Argument>,
    VastatrixError,
>)
    ensures
        match take_arguments(old(f)@, n as nat) {
            Ok((g, args)) => r matches Ok(out) && out.deep_view() == args && final(f)@ == g,
            Err(e) => r matches Err(x) && x == e && final(f)@ == old(f)@,
        },
{
    if f.stack.len() < n {
        return Err(VastatrixError::StackUnderflow);
    }
    let ghost before = f.stack.deep_view();
    let at = f.stack.len() - n;
    let args = f.stack.split_off(at);
    assert(args.deep_view() == before.skip(at as int));
    assert(f.stack.deep_view() == before.take(at as int));
    Ok(args)
}

/// Puts the slots `args` in the first local variables.
pub fn with_arguments_of(f: BytecodeFrame, args: Vec<Argument>) -> (r: Result<
    BytecodeFrame,
    VastatrixError,
>)
    ensures
        match with_arguments(f@, args.deep_view()) {
            Ok(g) => r matches Ok(out) && out@ == g,
            Err(e) => r matches Err(x) && x == e,
        },
{
    if args.len() > f.locals.len() {
        return Err(VastatrixError::LocalOutOfRange);
    }
    let mut f = f;
    let ghost start = f@;
    let ghost all = args.deep_view();
    let mut i: usize = 0;
    while i < args.len()
        invariant
            i <= args.len(),
            args.len() <= f.locals.len(),
            all == args.deep_view(),
            f@ == (FrameModel { locals: f@.locals, ..start }),
            f@.locals == Seq::new(
                start.locals.len(),
                |k: int|
                    if k < i {
                        all[k]
                    } else {
                        start.locals[k]
                    },
            ),
        decreases args.len() - i,
    {
        let ghost before = f@;
        assert(all[i as int] == args[i as int]@);
        let slot = args[i].clone();
        let _ = f.set_local(i, slot);
        assert(f@.locals == Seq::new(
            start.locals.len(),
            |k: int|
                if k < i + 1 {
                    all[k]
                } else {
                    start.locals[k]
                },
        ));
        i = i + 1;
    }
    Ok(f)
}

/// Takes the arguments of a call off the operand stack, and gives them with
/// the name of the class at which the search for the method starts.
pub fn call_arguments_of(f: &mut BytecodeFrame, op: u8, declared: String, parameters: usize) -> (r:
    Result<(Vec<Argument>, String), VastatrixError>)
    ensures
        match call_arguments(old(f)@, op, declared@, parameters as nat) {
            Ok((g, args, start)) => r matches Ok(out) && out.0.deep_view() == args && out.1@
                == start && final(f)@ == g,
            Err(e) => r matches Err(x) && x == e,
        },
{
    let params = take_arguments_of(f, parameters)?;
    if op == OP_INVOKESTATIC {
        return Ok((params, declared));
    }
    let receiver = f.pop_ref()?;
    let start = match receiver.kind() {
        MethodType::ClassReference { classpath } => {
            if op == OP_INVOKEVIRTUAL {
                classpath.clone()
            } else {
                declared
            }
        },
        _ => declared,
    };
    let mut args = params;
    let ghost tail = args.deep_view();
    let ghost head = receiver@;
    args.insert(0, receiver);
    assert(args.deep_view() == seq![head] + tail);
    Ok((args, start))
}

/// What one step of the machine leads to: the machine goes on with a heap
/// and a stack of frames, or the last frame has returned a value.
pub enum StepModel {
    Running(VmModel, Seq<FrameModel>),
    Finished(VmModel, Slot),
}

impl StepModel {
    /// The heap that the step leaves.
    pub open spec fn heap(self) -> VmModel {
        match self {
            StepModel::Running(vm, _) => vm,
            StepModel::Finished(vm, _) => vm,
        }
    }
}

/// What a return leads to. The frame that returns is taken off the stack of
/// frames. Where it was the only one, the machine has finished with the value.
/// Else the caller goes on, with the value on its operand stack where the
/// method that returns hands one back.
pub open spec fn finish(vm: VmModel, frames: Seq<FrameModel>, value: Slot) -> Result<
    StepModel,
    VastatrixError,
> {
    let rest = frames.drop_last();
    if rest.len() == 0 {
        Ok(StepModel::Finished(vm, value))
    } else if frames.last().returns_value {
        match rest.last().push(value) {
            Err(e) => Err(e),
            Ok(caller) => Ok(StepModel::Running(vm, rest.drop_last().push(caller))),
        }
    } else {
        Ok(StepModel::Running(vm, rest))
    }
}

/// The arguments of a call and the name of the class at which the search
/// for the method starts. `invokestatic` takes the declared parameters and
/// starts at the class that the reference names. `invokespecial` and
/// `invokevirtual` take the receiver from below the parameters as the first
/// argument; `invokevirtual` starts at the class of the receiver.
pub open spec fn call_arguments(
    f: FrameModel,
    op: u8,
    declared: Seq<char>,
    parameters: nat,
) -> Result<(FrameModel, Seq<Slot>, Seq<char>), VastatrixError> {
    match take_arguments(f, parameters) {
        Err(e) => Err(e),
        Ok((g, params)) => if op == OP_INVOKESTATIC {
            Ok((g, params, declared))
        } else {
            match g.pop_ref() {
                Err(e) => Err(e),
                Ok((h, receiver)) => Ok(
                    (
                        h,
                        seq![receiver] + params,
                        match receiver.kind {
                            Kind::ClassReference { classpath } => if op == OP_INVOKEVIRTUAL {
                                classpath
                            } else {
                                declared
                            },
                            _ => declared,
                        },
                    ),
                ),
            }
        },
    }
}

/// A call. The method reference at the pool index behind the instruction is
/// read, the arguments are taken off the caller's operand stack, the caller
/// moves on behind the instruction, and the method is searched. A method in
/// bytecode gets a new frame on top of the stack of frames, with the arguments
/// in its first local variables. A method of the host runs at once, and its
/// value goes on the caller's operand stack where the descriptor has a result.
#[verifier::opaque]
pub open spec fn invoke(vm: VmModel, frames: Seq<FrameModel>, op: u8) -> Result<
    StepModel,
    VastatrixError,
> {
    let f = frames.last();
    let rest = frames.drop_last();
    match operand16(f) {
        Err(e) => Err(e),
        Ok(index) => match vm.method_ref(f.class_handle, index) {
            Err(e) => Err(e),
            Ok(m) => match descriptor_of(m.descriptor) {
                None => Err(VastatrixError::BadDescriptor),
                Some(d) => match call_arguments(f, op, m.class, d.types.len()) {
                    Err(e) => Err(e),
                    Ok((g, args, start)) => match g.jump(f.ip + 3) {
                        Err(e) => Err(e),
                        Ok(caller) => match vm.load(start) {
                            Err(e) => Err(e),
                            Ok((vm1, class)) => match vm1.lookup(
                                class,
                                m.name,
                                m.descriptor,
                                SUPER_CHAIN_LIMIT as nat,
                            ) {
                                Err(e) => Err(e),
                                Ok((vm2, target)) => enter(
                                    vm2,
                                    rest,
                                    caller,
                                    target,
                                    args,
                                    d.returns_value(),
                                ),
                            },
                        },
                    },
                },
            },
        },
    }
}

/// Entering the method that a call leads to, with the arguments `args`, from
/// the frame `caller`, below which the frames `rest` wait.
pub open spec fn enter(
    vm: VmModel,
    rest: Seq<FrameModel>,
    caller: FrameModel,
    target: FrameTarget,
    args: Seq<Slot>,
    returns_value: bool,
) -> Result<StepModel, VastatrixError> {
    match target {
        FrameTarget::Bytecode(callee) => match with_arguments(callee, args) {
            Err(e) => Err(e),
            Ok(ready) => Ok(StepModel::Running(vm, rest.push(caller).push(ready))),
        },
        FrameTarget::Native(method) => match native(vm, method, args) {
            Err(e) => Err(e),
            Ok((after, NativeResult::Return(value))) => if returns_value {
                match caller.push(value) {
                    Err(e) => Err(e),
                    Ok(c) => Ok(StepModel::Running(after, rest.push(c))),
                }
            } else {
                Ok(StepModel::Running(after, rest.push(caller)))
            },
            Ok((after, NativeResult::Call(frame))) => Ok(
                StepModel::Running(
                    after,
                    rest.push(caller).push(FrameModel { returns_value, ..frame }),
                ),
            ),
        },
    }
}

/// One step of the machine: the instruction at the instruction pointer of
/// the top frame runs. `ireturn` returns the slot on top of the operand stack,
/// which holds an integer of 32 bits or of a narrower kind, and `return`
/// returns a `Void` slot. An instruction outside the set that the machine knows
/// ends the run with `UnknownOpcode`.
pub open spec fn step(vm: VmModel, frames: Seq<FrameModel>) -> Result<StepModel, VastatrixError> {
    if frames.len() == 0 {
        Err(VastatrixError::NoFrame)
    } else {
        let f = frames.last();
        match f.fetch(0) {
            Err(e) => Err(e),
            Ok(op) => if FrameModel::is_local(op) {
                match f.execute(op) {
                    Err(e) => Err(e),
                    Ok(g) => Ok(StepModel::Running(vm, frames.drop_last().push(g))),
                }
            } else if is_heap_op(op) {
                match heap_step(vm, f, op) {
                    Err(e) => Err(e),
                    Ok((after, g)) => Ok(StepModel::Running(after, frames.drop_last().push(g))),
                }
            } else if op == OP_INVOKESTATIC || op == OP_INVOKESPECIAL || op == OP_INVOKEVIRTUAL {
                invoke(vm, frames, op)
            } else if op == OP_IRETURN {
                match f.pop_word() {
                    Err(e) => Err(e),
                    Ok((_, value)) => finish(vm, frames, value),
                }
            } else if op == OP_RETURN {
                finish(vm, frames, Slot::void())
            } else {
                Err(VastatrixError::UnknownOpcode(op))
            },
        }
    }
}

/// The machine after at most `n` steps, or the value it has finished with
/// before.
pub open spec fn run(vm: VmModel, frames: Seq<FrameModel>, n: nat) -> Result<
    StepModel,
    VastatrixError,
>
    decreases n,
{
    if n == 0 {
        Ok(StepModel::Running(vm, frames))
    } else {
        match step(vm, frames) {
            Err(e) => Err(e),
            Ok(StepModel::Finished(after, value)) => Ok(StepModel::Finished(after, value)),
            Ok(StepModel::Running(after, next)) => run(after, next, (n - 1) as nat),
        }
    }
}

/// The frames of a thread that is about to run the method `name` of the
/// class `classpath` with the arguments `args`: the class is loaded, the method
/// is searched there and above, and its frame gets the arguments. A method of
/// the host cannot be started this way.
pub open spec fn start(
    vm: VmModel,
    classpath: Seq<char>,
    name: Seq<char>,
    descriptor: Seq<char>,
    args: Seq<Slot>,
) -> Result<(VmModel, Seq<FrameModel>), VastatrixError> {
    match vm.load(classpath) {
        Err(e) => Err(e),
        Ok((vm1, class)) => match vm1.lookup(class, name, descriptor, SUPER_CHAIN_LIMIT as nat) {
            Err(e) => Err(e),
            Ok((vm2, FrameTarget::Native(_))) => Err(VastatrixError::NoSuchMethod),
            Ok((vm2, FrameTarget::Bytecode(f))) => match with_arguments(f, args) {
                Err(e) => Err(e),
                Ok(ready) => Ok((vm2, seq![ready])),
            },
        },
    }
}

/// The text `text` with `/` in the place of each `.`.
pub fn slashed_of(text: &str) -> (r: String)
    ensures
        r@ == with_slashes(text@),
{
    let chars = chars_of(text);
    string_of(&with_slashes_of(&chars))
}

/// The name of the method that a program starts with.
pub open spec fn main_name() -> Seq<char> {
    "main"@
}

/// The descriptor of the method that a program starts with.
pub open spec fn main_descriptor() -> Seq<char> {
    "([Ljava/lang/String;)V"@
}

/// Running the program of the class `classpath`, whose name may be written
/// with `.` or with `/`: its method `main` is started without arguments and
/// runs for at most `max_steps` instructions.
pub open spec fn run_main(vm: VmModel, classpath: Seq<char>, max_steps: nat) -> Result<
    StepModel,
    VastatrixError,
> {
    match start(vm, with_slashes(classpath), main_name(), main_descriptor(), Seq::<Slot>::empty()) {
        Err(e) => Err(e),
        Ok((after, frames)) => run(after, frames, max_steps),
    }
}

/// One thread of execution: its stack of frames, the running frame last.
#[derive(Debug)]
pub struct Vastatrick {
    pub frames: Vec<BytecodeFrame>,
}

impl View for Vastatrick {
    type V = Seq<FrameModel>;

    open spec fn view(&self) -> Seq<FrameModel> {
        self.frames.deep_view()
    }
}

impl Vastatrick {
    /// A thread that runs nothing yet.
    pub fn new() -> (r: Self)
        ensures
            r@ == Seq::<FrameModel>::empty(),
    {
        let r = Vastatrick { frames: Vec::new() };
        assert(r.frames.deep_view() == Seq::<FrameModel>::empty());
        r
    }

    /// A thread that is about to run the method `name` of the class
    /// `classpath` with the arguments `args`.
    pub fn start(
        vm: &mut Vastatrix,
        classpath: String,
        name: &str,
        descriptor: &str,
        args: Vec<Argument>,
    ) -> (r: Result<Self, VastatrixError>)
        ensures
            match start(old(vm)@, classpath@, name@, descriptor@, args.deep_view()) {
                Ok((after, frames)) => r matches Ok(out) && out@ == frames && final(vm)@ == after,
                Err(e) => r matches Err(x) && x == e,
            },
    {
        let class = vm.load_or_get_class_handle(classpath)?;
        let target = vm.lookup(class, name, descriptor)?;
        match target {
            Frame::Native(_) => Err(VastatrixError::NoSuchMethod),
            Frame::Bytecode(f) => {
                let ready = with_arguments_of(f, args)?;
                let mut thread = Vastatrick::new();
                thread.push_frame(ready);
                assert(thread@ == seq![ready@]);
                Ok(thread)
            },
        }
    }

    /// Runs the program of the class `classpath`: its method `main`, without
    /// arguments, for at most `max_steps` instructions. The frames that this
    /// thread held before are dropped, and an error leaves no frame.
    pub fn run_main_class(&mut self, vm: &mut Vastatrix, classpath: String, max_steps: u64) -> (r:
        Result<Option<Argument>, VastatrixError>)
        ensures
            match run_main(old(vm)@, classpath@, max_steps as nat) {
                Ok(StepModel::Running(after, frames)) => r matches Ok(None) && final(vm)@ == after
                    && final(self)@ == frames,
                Ok(StepModel::Finished(after, value)) => r matches Ok(Some(out)) && out@ == value
                    && final(vm)@ == after && final(self)@ == Seq::<FrameModel>::empty(),
                Err(e) => r matches Err(x) && x == e && final(self)@ == Seq::<FrameModel>::empty(),
            },
    {
        let args: Vec<Argument> = Vec::new();
        assert(args.deep_view() == Seq::<Slot>::empty());
        self.frames = Vec::new();
        assert(self.frames.deep_view() == Seq::<FrameModel>::empty());
        let thread = Self::start(
            vm,
            slashed_of(classpath.as_str()),
            "main",
            "([Ljava/lang/String;)V",
            args,
        )?;
        *self = thread;
        self.run(vm, max_steps)
    }

    /// Puts `frame` on top of the stack of frames.
    pub fn push_frame(&mut self, frame: BytecodeFrame)
        ensures
            final(self)@ == old(self)@.push(frame@),
    {
        let ghost before = self.frames.deep_view();
        let ghost model = frame@;
        self.frames.push(frame);
        assert(self.frames.deep_view() == before.push(model));
    }

    /// Takes the top frame off the stack of frames.
    fn pop_frame(&mut self) -> (r: Option<BytecodeFrame>)
        ensures
            match r {
                Some(frame) => old(self)@.len() > 0 && frame@ == old(self)@.last() && final(self)@
                    == old(self)@.drop_last(),
                None => old(self)@.len() == 0 && final(self)@ == old(self)@,
            },
    {
        let ghost before = self.frames.deep_view();
        match self.frames.pop() {
            Some(frame) => {
                assert(self.frames.deep_view() == before.drop_last());
                assert(before.last() == frame@);
                Some(frame)
            },
            None => None,
        }
    }

    /// Takes the frame `done` off the machine, which has returned `value`,
    /// and hands the value to its caller. The frame is off the stack of frames
    /// already.
    fn finish(&mut self, done: &BytecodeFrame, value: Argument) -> (r: Result<
        Option<Argument>,
        VastatrixError,
    >)
        ensures
            forall|vm: VmModel|
                match #[trigger] finish(vm, old(self)@.push(done@), value@) {
                    Ok(StepModel::Running(after, frames)) => r matches Ok(None) && after == vm
                        && final(self)@ == frames,
                    Ok(StepModel::Finished(after, v)) => r matches Ok(Some(out)) && out@ == v
                        && after == vm && final(self)@ == Seq::<FrameModel>::empty(),
                    Err(e) => r matches Err(x) && x == e,
                },
    {
        let ghost rest = self@;
        assert(rest.push(done@).drop_last() == rest);
        assert(rest.push(done@).last() == done@);
        if self.frames.len() == 0 {
            return Ok(Some(value));
        }
        if done.returns_value {
            match self.pop_frame() {
                Some(caller) => {
                    let mut caller = caller;
                    caller.push(value)?;
                    self.push_frame(caller);
                },
                None => {},
            }
        }
        Ok(None)
    }

    /// Enters the method that a call leads to.
    fn enter(
        &mut self,
        vm: &mut Vastatrix,
        caller: BytecodeFrame,
        target: Frame,
        args: Vec<Argument>,
        returns_value: bool,
    ) -> (r: Result<(), VastatrixError>)
        ensures
            match enter(old(vm)@, old(self)@, caller@, target@, args.deep_view(), returns_value) {
                Ok(StepModel::Running(after, frames)) => r is Ok && final(vm)@ == after
                    && final(self)@ == frames,
                Ok(StepModel::Finished(_, _)) => false,
                Err(e) => r == Err::<(), VastatrixError>(e),
            },
    {
        match target {
            Frame::Bytecode(callee) => {
                let ready = with_arguments_of(callee, args)?;
                self.push_frame(caller);
                self.push_frame(ready);
                Ok(())
            },
            Frame::Native(method) => {
                let outcome = call_native(vm, method, &args)?;
                match outcome {
                    NativeOutcome::Return(value) => {
                        let mut caller = caller;
                        if returns_value {
                            caller.push(value)?;
                        }
                        self.push_frame(caller);
                        Ok(())
                    },
                    NativeOutcome::Call(frame) => {
                        let mut frame = frame;
                        frame.returns_value = returns_value;
                        self.push_frame(caller);
                        self.push_frame(frame);
                        Ok(())
                    },
                }
            },
        }
    }

    /// Runs a call. The calling frame `f` is off the stack of frames already.
    fn invoke(&mut self, vm: &mut Vastatrix, f: BytecodeFrame, op: u8) -> (r: Result<
        (),
        VastatrixError,
    >)
        requires
            op == OP_INVOKESTATIC || op == OP_INVOKESPECIAL || op == OP_INVOKEVIRTUAL,
        ensures
            match invoke(old(vm)@, old(self)@.push(f@), op) {
                Ok(StepModel::Running(after, frames)) => r is Ok && final(vm)@ == after
                    && final(self)@ == frames,
                Ok(StepModel::Finished(_, _)) => false,
                Err(e) => r == Err::<(), VastatrixError>(e),
            },
    {
        reveal(invoke);
        let ghost rest = self@;
        assert(rest.push(f@).drop_last() == rest);
        assert(rest.push(f@).last() == f@);
        let mut f = f;
        let next = f.ip as i64 + 3;
        let index = operand16_of(&f)?;
        let m = vm.method_ref(f.class_handle, index)?;
        let d = match Descriptor::parse(m.descriptor.as_str()) {
            Some(d) => d,
            None => {
                return Err(VastatrixError::BadDescriptor);
            },
        };
        let (args, start) = call_arguments_of(&mut f, op, m.class, d.parameter_count())?;
        f.jump(next)?;
        let class = vm.load_or_get_class_handle(start)?;
        let target = vm.lookup(class, m.name.as_str(), m.descriptor.as_str())?;
        self.enter(vm, f, target, args, d.returns_value())
    }

    /// Runs one instruction of the top frame. The result is `Some` with the
    /// value where the last frame has returned, and `None` while there is more
    /// to run. An error ends the run: no frame is left after it.
    pub fn step(&mut self, vm: &mut Vastatrix) -> (r: Result<Option<Argument>, VastatrixError>)
        ensures
            match step(old(vm)@, old(self)@) {
                Ok(StepModel::Running(after, frames)) => r matches Ok(None) && final(vm)@ == after
                    && final(self)@ == frames,
                Ok(StepModel::Finished(after, value)) => r matches Ok(Some(out)) && out@ == value
                    && final(vm)@ == after && final(self)@ == Seq::<FrameModel>::empty(),
                Err(e) => r matches Err(x) && x == e && final(self)@ == Seq::<FrameModel>::empty(),
            },
    {
        let r = self.advance(vm);
        if r.is_err() {
            self.frames = Vec::new();
            assert(self.frames.deep_view() == Seq::<FrameModel>::empty());
        }
        r
    }

    /// Runs one instruction of the top frame.
    fn advance(&mut self, vm: &mut Vastatrix) -> (r: Result<Option<Argument>, VastatrixError>)
        ensures
            match step(old(vm)@, old(self)@) {
                Ok(StepModel::Running(after, frames)) => r matches Ok(None) && final(vm)@ == after
                    && final(self)@ == frames,
                Ok(StepModel::Finished(after, value)) => r matches Ok(Some(out)) && out@ == value
                    && final(vm)@ == after && final(self)@ == Seq::<FrameModel>::empty(),
                Err(e) => r matches Err(x) && x == e,
            },
    {
        let ghost all = self@;
        let mut f = match self.pop_frame() {
            Some(f) => f,
            None => {
                return Err(VastatrixError::NoFrame);
            },
        };
        assert(all == self@.push(f@));
        let op = f.fetch(0)?;
        if is_local_op(op) {
            f.execute(op)?;
            self.push_frame(f);
            Ok(None)
        } else if op == OP_LDC || op == OP_NEWARRAY || op == OP_IALOAD || op == OP_IASTORE || op
            == OP_ARRAYLENGTH || op == OP_NEW || op == OP_GETFIELD || op == OP_PUTFIELD {
            run_heap_step(vm, &mut f, op)?;
            self.push_frame(f);
            Ok(None)
        } else if op == OP_INVOKESTATIC || op == OP_INVOKESPECIAL || op == OP_INVOKEVIRTUAL {
            self.invoke(vm, f, op)?;
            Ok(None)
        } else if op == OP_IRETURN {
            let ghost before = f@;
            let value = f.pop_word()?;
            let ghost done = f;
            assert(self@.push(before).drop_last() == self@);
            assert(self@.push(done@).drop_last() == self@);
            assert(done@.returns_value == before.returns_value);
            assert(finish(vm@, self@.push(before), value@) == finish(
                vm@,
                self@.push(done@),
                value@,
            ));
            self.finish(&f, value)
        } else if op == OP_RETURN {
            self.finish(&f, Argument::new(0, MethodType::Void))
        } else {
            Err(VastatrixError::UnknownOpcode(op))
        }
    }

    /// Runs at most `max_steps` instructions. The result is `Some` with the
    /// value where the last frame has returned within those, and `None` where
    /// there is more to run. An error ends the run: no frame is left after it.
    pub fn run(&mut self, vm: &mut Vastatrix, max_steps: u64) -> (r: Result<
        Option<Argument>,
        VastatrixError,
    >)
        ensures
            match run(old(vm)@, old(self)@, max_steps as nat) {
                Ok(StepModel::Running(after, frames)) => r matches Ok(None) && final(vm)@ == after
                    && final(self)@ == frames,
                Ok(StepModel::Finished(after, value)) => r matches Ok(Some(out)) && out@ == value
                    && final(vm)@ == after && final(self)@ == Seq::<FrameModel>::empty(),
                Err(e) => r matches Err(x) && x == e && final(self)@ == Seq::<FrameModel>::empty(),
            },
    {
        let mut left = max_steps;
        while left > 0
            invariant
                run(old(vm)@, old(self)@, max_steps as nat) == run(vm@, self@, left as nat),
            decreases left,
        {
            match self.step(vm)? {
                Some(value) => {
                    return Ok(Some(value));
                },
                None => {},
            }
            left = left - 1;
        }
        Ok(None)
    }
}

/// Whether `op` is an instruction that touches nothing but the frame.
pub fn is_local_op(op: u8) -> (r: bool)
    ensures
        r == FrameModel::is_local(op),
{
    (0x02 <= op && op <= 0x08) || op == 0x15 || (0x1A <= op && op <= 0x1D) || op == 0x2A || op
        == 0x2C || op == 0x36 || (0x3B <= op && op <= 0x3E) || op == 0x4B || op == 0x4D || op
        == 0x57 || op == 0x59 || op == 0x60 || op == 0x64 || op == 0x68 || op == 0x6C || op == 0x84
        || op == 0xA2 || op == 0xA7
}

/// What a return leaves on the caller's operand stack: one slot more where
/// the method hands a value back, and as many as before where it does not.
/// The frame that returns is gone, and the frames below the caller are
/// untouched.
pub proof fn lemma_return_depth(vm: VmModel, frames: Seq<FrameModel>, value: Slot)
    requires
        frames.len() >= 2,
    ensures
        finish(vm, frames, value) matches Ok(StepModel::Running(after, left)) ==> {
            &&& after == vm
            &&& left.len() == frames.len() - 1
            &&& left.drop_last() == frames.drop_last().drop_last()
            &&& left.last().stack.len() == frames[frames.len() - 2].stack.len() + (if frames.last().returns_value
            {
                1int
            } else {
                0int
            })
            &&& frames.last().returns_value ==> left.last().stack.last() == value
        },
{
    let rest = frames.drop_last();
    if frames.last().returns_value {
        if rest.last().push(value) is Ok {
            assert(rest.drop_last().push(rest.last().push(value)->Ok_0).drop_last()
                == rest.drop_last());
        }
    }
}

/// An instruction that touches the heap gives a heap in order that extends
/// the one before.
pub proof fn lemma_heap_step_extends(vm: VmModel, f: FrameModel, op: u8)
    requires
        vm.wf(),
    ensures
        heap_step(vm, f, op) matches Ok((after, _)) ==> after.wf() && after.extends(vm),
{
    reveal(heap_step);
    if heap_step(vm, f, op) is Ok {
        if op == OP_LDC {
            match vm.constant(f.class_handle, f.fetch(1)->Ok_0 as u16) {
                Ok(LoadedConstantModel::Text(text)) => {
                    lemma_make_string_extends(vm, text);
                },
                _ => {},
            }
        } else if op == OP_NEWARRAY {
            let count = f.pop_int()->Ok_0.1;
            let kind = array_kind(f.fetch(1)->Ok_0)->0;
            lemma_steps_extend(
                vm,
                Seq::<char>::empty(),
                0,
                zero_slots(count as nat, kind),
                kind,
                0,
                0,
                Slot::void(),
            );
        } else if op == OP_IASTORE {
            let (g, value) = f.pop_int()->Ok_0;
            let (h, index) = g.pop_int()->Ok_0;
            let (_, array) = pop_object(h, true)->Ok_0;
            lemma_steps_extend(
                vm,
                Seq::<char>::empty(),
                0,
                Seq::<Slot>::empty(),
                Kind::Int,
                array,
                index,
                Slot::of_int(value),
            );
        } else if op == OP_NEW {
            let name = vm.class_ref(f.class_handle, operand16(f)->Ok_0)->Ok_0;
            lemma_load_valid(vm, name);
            let (next, class) = vm.load(name)->Ok_0;
            lemma_steps_extend(
                next,
                Seq::<char>::empty(),
                class,
                Seq::<Slot>::empty(),
                Kind::Int,
                0,
                0,
                Slot::void(),
            );
        } else if op == OP_PUTFIELD {
            let field = vm.field_ref(f.class_handle, operand16(f)->Ok_0)->Ok_0;
            let (g, value) = f.pop()->Ok_0;
            let (_, instance) = pop_object(g, false)->Ok_0;
            lemma_steps_extend(
                vm,
                field.name,
                0,
                Seq::<Slot>::empty(),
                Kind::Int,
                instance,
                0,
                value,
            );
        }
    }
}

/// A call gives a heap in order that extends the one before.
pub proof fn lemma_invoke_extends(vm: VmModel, frames: Seq<FrameModel>, op: u8)
    requires
        vm.wf(),
    ensures
        invoke(vm, frames, op) matches Ok(next) ==> next.heap().wf() && next.heap().extends(vm),
{
    reveal(invoke);
    if invoke(vm, frames, op) is Ok {
        let f = frames.last();
        let m = vm.method_ref(f.class_handle, operand16(f)->Ok_0)->Ok_0;
        let d = descriptor_of(m.descriptor)->0;
        let (_, args, start) = call_arguments(f, op, m.class, d.types.len())->Ok_0;
        lemma_load_valid(vm, start);
        let (vm1, class) = vm.load(start)->Ok_0;
        lemma_lookup_extends(vm1, class, m.name, m.descriptor, SUPER_CHAIN_LIMIT as nat);
        let (vm2, target) = vm1.lookup(
            class,
            m.name,
            m.descriptor,
            SUPER_CHAIN_LIMIT as nat,
        )->Ok_0;
        match target {
            FrameTarget::Native(method) => {
                lemma_native_extends(vm2, method, args);
            },
            FrameTarget::Bytecode(_) => {},
        }
    }
}

/// No step of the machine takes a handle away: as long as the machine runs,
/// the handle of a class names that class, unchanged, and the handle of an
/// object names an object of the same sort.
pub proof fn lemma_step_extends(vm: VmModel, frames: Seq<FrameModel>)
    requires
        vm.wf(),
    ensures
        step(vm, frames) matches Ok(next) ==> next.heap().wf() && next.heap().extends(vm),
{
    if frames.len() > 0 && frames.last().fetch(0) is Ok {
        let op = frames.last().fetch(0)->Ok_0;
        lemma_heap_step_extends(vm, frames.last(), op);
        lemma_invoke_extends(vm, frames, op);
    }
}

/// The same of a run of any number of steps.
pub proof fn lemma_run_extends(vm: VmModel, frames: Seq<FrameModel>, n: nat)
    requires
        vm.wf(),
    ensures
        run(vm, frames, n) matches Ok(last) ==> last.heap().wf() && last.heap().extends(vm),
    decreases n,
{
    if n > 0 {
        lemma_step_extends(vm, frames);
        match step(vm, frames) {
            Ok(StepModel::Running(after, next)) => {
                lemma_run_extends(after, next, (n - 1) as nat);
            },
            _ => {},
        }
    }
}

} // verus!
