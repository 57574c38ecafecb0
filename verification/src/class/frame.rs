//! Frames: one activation of a method, with its operand stack, its local
//! variables and its instruction pointer, and the instructions that touch
//! nothing but the frame.

use crate::class::method::trunc_div;
use crate::class::method::wrap_i32;
use crate::class::method::Argument;
use crate::class::method::MethodType;
use crate::class::method::Slot;
use crate::VastatrixError;
use vstd::prelude::*;

verus! {

/// `iconst_m1`, the first of the seven instructions up to `iconst_5` that push
/// the integers from -1 to 5.
pub const OP_ICONST_M1: u8 = 0x02;

/// `iconst_5`.
pub const OP_ICONST_5: u8 = 0x08;

/// `ldc`: push a constant of the pool.
pub const OP_LDC: u8 = 0x12;

/// `iload`: push the integer of a local variable.
pub const OP_ILOAD: u8 = 0x15;

/// `iload_0`, the first of the four instructions up to `iload_3`.
pub const OP_ILOAD_0: u8 = 0x1A;

/// `iload_3`.
pub const OP_ILOAD_3: u8 = 0x1D;

/// `aload_0`: push the reference of the local variable 0.
pub const OP_ALOAD_0: u8 = 0x2A;

/// `aload_2`: push the reference of the local variable 2.
pub const OP_ALOAD_2: u8 = 0x2C;

/// `iaload`: push an element of an array.
pub const OP_IALOAD: u8 = 0x2E;

/// `istore`: pop an integer into a local variable.
pub const OP_ISTORE: u8 = 0x36;

/// `istore_0`, the first of the four instructions up to `istore_3`.
pub const OP_ISTORE_0: u8 = 0x3B;

/// `istore_3`.
pub const OP_ISTORE_3: u8 = 0x3E;

/// `astore_0`: pop a reference into the local variable 0.
pub const OP_ASTORE_0: u8 = 0x4B;

/// `astore_2`: pop a reference into the local variable 2.
pub const OP_ASTORE_2: u8 = 0x4D;

/// `iastore`: pop an integer into an element of an array.
pub const OP_IASTORE: u8 = 0x4F;

/// `pop`: drop the top of the operand stack.
pub const OP_POP: u8 = 0x57;

/// `dup`: push the top of the operand stack once more.
pub const OP_DUP: u8 = 0x59;

/// `iadd`.
pub const OP_IADD: u8 = 0x60;

/// `isub`.
pub const OP_ISUB: u8 = 0x64;

/// `imul`.
pub const OP_IMUL: u8 = 0x68;

/// `idiv`.
pub const OP_IDIV: u8 = 0x6C;

/// `iinc`: add a signed byte to the integer of a local variable.
pub const OP_IINC: u8 = 0x84;

/// The branch on two integers, taken if the lower one on the operand stack is
/// greater than or equal to the upper one.
pub const OP_IF_INT_GE: u8 = 0xA2;

/// `goto`: branch by a signed offset of 16 bits.
pub const OP_GOTO: u8 = 0xA7;

/// `ireturn`: return the integer on top of the operand stack.
pub const OP_IRETURN: u8 = 0xAC;

/// `return`: return nothing.
pub const OP_RETURN: u8 = 0xB1;

/// `getfield`.
pub const OP_GETFIELD: u8 = 0xB4;

/// `putfield`.
pub const OP_PUTFIELD: u8 = 0xB5;

/// `invokevirtual`.
pub const OP_INVOKEVIRTUAL: u8 = 0xB6;

/// `invokespecial`.
pub const OP_INVOKESPECIAL: u8 = 0xB7;

/// `invokestatic`.
pub const OP_INVOKESTATIC: u8 = 0xB8;

/// `new`.
pub const OP_NEW: u8 = 0xBB;

/// `newarray`.
pub const OP_NEWARRAY: u8 = 0xBC;

/// `arraylength`.
pub const OP_ARRAYLENGTH: u8 = 0xBE;

/// One activation of a method in bytecode.
#[derive(Debug)]
pub struct BytecodeFrame {
    /// The handle of the class that declares the method.
    pub class_handle: u32,
    /// The name of the method.
    pub method: String,
    /// The index in `code` of the instruction to run next.
    pub ip: u32,
    pub code: Vec<u8>,
    pub locals: Vec<Argument>,
    pub stack: Vec<Argument>,
    /// The number of slots that the operand stack may hold.
    pub max_stack: u16,
    /// Whether the caller is owed the value that the method returns.
    pub returns_value: bool,
}

/// The mathematical value of a [`BytecodeFrame`]. The top of the operand
/// stack is the last slot of `stack`.
pub struct FrameModel {
    pub class_handle: u32,
    pub method: Seq<char>,
    pub ip: int,
    pub code: Seq<u8>,
    pub locals: Seq<Slot>,
    pub stack: Seq<Slot>,
    pub max_stack: int,
    pub returns_value: bool,
}

impl View for BytecodeFrame {
    type V = FrameModel;

    open spec fn view(&self) -> FrameModel {
        FrameModel {
            class_handle: self.class_handle,
            method: self.method@,
            ip: self.ip as int,
            code: self.code@,
            locals: self.locals.deep_view(),
            stack: self.stack.deep_view(),
            max_stack: self.max_stack as int,
            returns_value: self.returns_value,
        }
    }
}

impl DeepView for BytecodeFrame {
    type V = FrameModel;

    open spec fn deep_view(&self) -> FrameModel {
        self@
    }
}

/// The signed value of the 16 bits made of the bytes `high` and `low`.
pub open spec fn signed16(high: u8, low: u8) -> int {
    if high >= 0x80 {
        high * 0x100 + low - 0x1_0000
    } else {
        high * 0x100 + low
    }
}

/// The signed value of the byte `b`.
pub open spec fn signed8(b: u8) -> int {
    if b >= 0x80 {
        b - 0x100
    } else {
        b as int
    }
}

impl FrameModel {
    /// The byte of the code at `k` bytes behind the instruction pointer.
    pub open spec fn fetch(self, k: int) -> Result<u8, VastatrixError> {
        if 0 <= self.ip + k < self.code.len() {
            Ok(self.code[self.ip + k])
        } else {
            Err(VastatrixError::CodeOutOfRange)
        }
    }

    /// The frame with the instruction pointer at `target`, which has to fit in
    /// 32 bits.
    pub open spec fn jump(self, target: int) -> Result<FrameModel, VastatrixError> {
        if 0 <= target <= u32::MAX {
            Ok(FrameModel { ip: target, ..self })
        } else {
            Err(VastatrixError::CodeOutOfRange)
        }
    }

    /// The frame with `slot` on top of the operand stack.
    pub open spec fn push(self, slot: Slot) -> Result<FrameModel, VastatrixError> {
        if self.stack.len() < self.max_stack {
            Ok(FrameModel { stack: self.stack.push(slot), ..self })
        } else {
            Err(VastatrixError::StackOverflow)
        }
    }

    /// The frame without the top of the operand stack, and that slot.
    pub open spec fn pop(self) -> Result<(FrameModel, Slot), VastatrixError> {
        if self.stack.len() > 0 {
            Ok((FrameModel { stack: self.stack.drop_last(), ..self }, self.stack.last()))
        } else {
            Err(VastatrixError::StackUnderflow)
        }
    }

    /// The frame without the top of the operand stack, and the integer that
    /// slot holds.
    pub open spec fn pop_int(self) -> Result<(FrameModel, int), VastatrixError> {
        match self.pop() {
            Err(e) => Err(e),
            Ok((f, slot)) => if slot.is_int() {
                Ok((f, slot.value))
            } else {
                Err(VastatrixError::TypeMismatch)
            },
        }
    }

    /// The frame without the top of the operand stack, and that slot, which
    /// holds an integer of 32 bits or of a narrower kind.
    pub open spec fn pop_word(self) -> Result<(FrameModel, Slot), VastatrixError> {
        match self.pop() {
            Err(e) => Err(e),
            Ok((f, slot)) => if slot.is_word() {
                Ok((f, slot))
            } else {
                Err(VastatrixError::TypeMismatch)
            },
        }
    }

    /// The frame without the top of the operand stack, and that slot, which
    /// holds a reference.
    pub open spec fn pop_ref(self) -> Result<(FrameModel, Slot), VastatrixError> {
        match self.pop() {
            Err(e) => Err(e),
            Ok((f, slot)) => if slot.is_ref() {
                Ok((f, slot))
            } else {
                Err(VastatrixError::TypeMismatch)
            },
        }
    }

    /// The slot of the local variable `index`.
    pub open spec fn local(self, index: int) -> Result<Slot, VastatrixError> {
        if 0 <= index < self.locals.len() {
            Ok(self.locals[index])
        } else {
            Err(VastatrixError::LocalOutOfRange)
        }
    }

    /// The frame with `slot` in the local variable `index`.
    pub open spec fn set_local(self, index: int, slot: Slot) -> Result<FrameModel, VastatrixError> {
        if 0 <= index < self.locals.len() {
            Ok(FrameModel { locals: self.locals.update(index, slot), ..self })
        } else {
            Err(VastatrixError::LocalOutOfRange)
        }
    }

    /// Copies the local variable `index`, which holds an integer of 32 bits or
    /// of a narrower kind where `integer` is set and a reference where it is
    /// not, to the operand stack, and moves on by `width` bytes.
    pub open spec fn load(self, index: int, integer: bool, width: int) -> Result<
        FrameModel,
        VastatrixError,
    > {
        match self.local(index) {
            Err(e) => Err(e),
            Ok(slot) => if (integer && slot.is_word()) || (!integer && slot.is_ref()) {
                match self.push(slot) {
                    Err(e) => Err(e),
                    Ok(f) => f.jump(self.ip + width),
                }
            } else {
                Err(VastatrixError::TypeMismatch)
            },
        }
    }

    /// Moves the top of the operand stack, which holds an integer of 32 bits
    /// or of a narrower kind where `integer` is set and a reference where it is
    /// not, to the local variable `index`, and moves on by `width` bytes.
    pub open spec fn store(self, index: int, integer: bool, width: int) -> Result<
        FrameModel,
        VastatrixError,
    > {
        match self.pop() {
            Err(e) => Err(e),
            Ok((f, slot)) => if (integer && slot.is_word()) || (!integer && slot.is_ref()) {
                match f.set_local(index, slot) {
                    Err(e) => Err(e),
                    Ok(g) => g.jump(self.ip + width),
                }
            } else {
                Err(VastatrixError::TypeMismatch)
            },
        }
    }

    /// Takes two integers off the operand stack, the right operand first, and
    /// puts the wrapped result of `op` there.
    pub open spec fn arithmetic(self, op: u8) -> Result<FrameModel, VastatrixError> {
        match self.pop_int() {
            Err(e) => Err(e),
            Ok((f, right)) => match f.pop_int() {
                Err(e) => Err(e),
                Ok((g, left)) => if op == OP_IDIV && right == 0 {
                    Err(VastatrixError::DivisionByZero)
                } else {
                    match g.push(
                        Slot::of_int(
                            wrap_i32(
                                if op == OP_IADD {
                                    left + right
                                } else if op == OP_ISUB {
                                    left - right
                                } else if op == OP_IMUL {
                                    left * right
                                } else {
                                    trunc_div(left, right)
                                },
                            ),
                        ),
                    ) {
                        Err(e) => Err(e),
                        Ok(h) => h.jump(self.ip + 1),
                    }
                },
            },
        }
    }

    /// Whether `op` is an instruction that touches nothing but the frame.
    pub open spec fn is_local(op: u8) -> bool {
        ||| OP_ICONST_M1 <= op <= OP_ICONST_5
        ||| op == OP_ILOAD
        ||| OP_ILOAD_0 <= op <= OP_ILOAD_3
        ||| op == OP_ALOAD_0
        ||| op == OP_ALOAD_2
        ||| op == OP_ISTORE
        ||| OP_ISTORE_0 <= op <= OP_ISTORE_3
        ||| op == OP_ASTORE_0
        ||| op == OP_ASTORE_2
        ||| op == OP_POP
        ||| op == OP_DUP
        ||| op == OP_IADD
        ||| op == OP_ISUB
        ||| op == OP_IMUL
        ||| op == OP_IDIV
        ||| op == OP_IINC
        ||| op == OP_IF_INT_GE
        ||| op == OP_GOTO
    }

    /// The frame after the instruction `op`, which stands at the instruction
    /// pointer and touches nothing but the frame.
    #[verifier::opaque]
    pub open spec fn execute(self, op: u8) -> Result<FrameModel, VastatrixError> {
        if OP_ICONST_M1 <= op <= OP_ICONST_5 {
            match self.push(Slot::of_int(op - 3)) {
                Err(e) => Err(e),
                Ok(f) => f.jump(self.ip + 1),
            }
        } else if op == OP_ILOAD {
            match self.fetch(1) {
                Err(e) => Err(e),
                Ok(index) => self.load(index as int, true, 2),
            }
        } else if OP_ILOAD_0 <= op <= OP_ILOAD_3 {
            self.load(op - OP_ILOAD_0, true, 1)
        } else if op == OP_ALOAD_0 {
            self.load(0, false, 1)
        } else if op == OP_ALOAD_2 {
            self.load(2, false, 1)
        } else if op == OP_ISTORE {
            match self.fetch(1) {
                Err(e) => Err(e),
                Ok(index) => self.store(index as int, true, 2),
            }
        } else if OP_ISTORE_0 <= op <= OP_ISTORE_3 {
            self.store(op - OP_ISTORE_0, true, 1)
        } else if op == OP_ASTORE_0 {
            self.store(0, false, 1)
        } else if op == OP_ASTORE_2 {
            self.store(2, false, 1)
        } else if op == OP_POP {
            match self.pop() {
                Err(e) => Err(e),
                Ok((f, _)) => f.jump(self.ip + 1),
            }
        } else if op == OP_DUP {
            match self.pop() {
                Err(e) => Err(e),
                Ok((_, top)) => match self.push(top) {
                    Err(e) => Err(e),
                    Ok(f) => f.jump(self.ip + 1),
                },
            }
        } else if op == OP_IADD || op == OP_ISUB || op == OP_IMUL || op == OP_IDIV {
            self.arithmetic(op)
        } else if op == OP_IINC {
            match self.fetch(1) {
                Err(e) => Err(e),
                Ok(index) => match self.fetch(2) {
                    Err(e) => Err(e),
                    Ok(by) => match self.local(index as int) {
                        Err(e) => Err(e),
                        Ok(slot) => if slot.is_int() {
                            match self.set_local(
                                index as int,
                                Slot::of_int(wrap_i32(slot.value + signed8(by))),
                            ) {
                                Err(e) => Err(e),
                                Ok(f) => f.jump(self.ip + 3),
                            }
                        } else {
                            Err(VastatrixError::TypeMismatch)
                        },
                    },
                },
            }
        } else if op == OP_GOTO {
            match self.fetch(1) {
                Err(e) => Err(e),
                Ok(high) => match self.fetch(2) {
                    Err(e) => Err(e),
                    Ok(low) => self.jump(self.ip + signed16(high, low)),
                },
            }
        } else if op == OP_IF_INT_GE {
            match self.fetch(1) {
                Err(e) => Err(e),
                Ok(high) => match self.fetch(2) {
                    Err(e) => Err(e),
                    Ok(low) => match self.pop_int() {
                        Err(e) => Err(e),
                        Ok((f, right)) => match f.pop_int() {
                            Err(e) => Err(e),
                            Ok((g, left)) => if left >= right {
                                g.jump(self.ip + signed16(high, low))
                            } else {
                                g.jump(self.ip + 3)
                            },
                        },
                    },
                },
            }
        } else {
            Err(VastatrixError::UnknownOpcode(op))
        }
    }
}

impl BytecodeFrame {
    /// The byte of the code at `k` bytes behind the instruction pointer.
    pub fn fetch(&self, k: u32) -> (r: Result<u8, VastatrixError>)
        ensures
            r == self@.fetch(k as int),
    {
        let at = self.ip as u64 + k as u64;
        if at < self.code.len() as u64 {
            Ok(self.code[at as usize])
        } else {
            Err(VastatrixError::CodeOutOfRange)
        }
    }

    /// Sets the instruction pointer to `target`.
    pub fn jump(&mut self, target: i64) -> (r: Result<(), VastatrixError>)
        ensures
            match old(self)@.jump(target as int) {
                Ok(f) => r is Ok && final(self)@ == f,
                Err(e) => r == Err::<(), VastatrixError>(e) && final(self)@ == old(self)@,
            },
    {
        if 0 <= target && target <= 0xffff_ffff {
            self.ip = target as u32;
            Ok(())
        } else {
            Err(VastatrixError::CodeOutOfRange)
        }
    }

    /// Puts `slot` on top of the operand stack.
    pub fn push(&mut self, slot: Argument) -> (r: Result<(), VastatrixError>)
        ensures
            match old(self)@.push(slot@) {
                Ok(f) => r is Ok && final(self)@ == f,
                Err(e) => r == Err::<(), VastatrixError>(e) && final(self)@ == old(self)@,
            },
    {
        if self.stack.len() < self.max_stack as usize {
            let ghost before = self.stack.deep_view();
            let ghost model = slot@;
            self.stack.push(slot);
            assert(self.stack.deep_view() == before.push(model));
            Ok(())
        } else {
            Err(VastatrixError::StackOverflow)
        }
    }

    /// Takes the top off the operand stack.
    pub fn pop(&mut self) -> (r: Result<Argument, VastatrixError>)
        ensures
            match old(self)@.pop() {
                Ok((f, slot)) => r matches Ok(out) && out@ == slot && final(self)@ == f,
                Err(e) => r matches Err(x) && x == e && final(self)@ == old(self)@,
            },
    {
        let ghost before = self.stack.deep_view();
        match self.stack.pop() {
            Some(slot) => {
                assert(self.stack.deep_view() == before.drop_last());
                assert(before.last() == slot@);
                Ok(slot)
            },
            None => Err(VastatrixError::StackUnderflow),
        }
    }

    /// Takes an integer off the operand stack.
    pub fn pop_int(&mut self) -> (r: Result<i32, VastatrixError>)
        ensures
            match old(self)@.pop_int() {
                Ok((f, v)) => r == Ok::<i32, VastatrixError>(v as i32) && i32::MIN <= v <= i32::MAX
                    && final(self)@ == f,
                Err(e) => r == Err::<i32, VastatrixError>(e),
            },
    {
        let slot = self.pop()?;
        if slot.is_int() {
            Ok(slot.int_value())
        } else {
            Err(VastatrixError::TypeMismatch)
        }
    }

    /// Takes an integer of 32 bits or of a narrower kind off the operand
    /// stack.
    pub fn pop_word(&mut self) -> (r: Result<Argument, VastatrixError>)
        ensures
            match old(self)@.pop_word() {
                Ok((f, slot)) => r matches Ok(out) && out@ == slot && final(self)@ == f,
                Err(e) => r matches Err(x) && x == e,
            },
    {
        let slot = self.pop()?;
        if slot.is_word() {
            Ok(slot)
        } else {
            Err(VastatrixError::TypeMismatch)
        }
    }

    /// Takes a reference off the operand stack.
    pub fn pop_ref(&mut self) -> (r: Result<Argument, VastatrixError>)
        ensures
            match old(self)@.pop_ref() {
                Ok((f, slot)) => r matches Ok(out) && out@ == slot && slot.is_ref() && final(self)@
                    == f,
                Err(e) => r matches Err(x) && x == e,
            },
    {
        let slot = self.pop()?;
        if slot.is_ref() {
            Ok(slot)
        } else {
            Err(VastatrixError::TypeMismatch)
        }
    }

    /// Puts `slot` in the local variable `index`.
    pub fn set_local(&mut self, index: usize, slot: Argument) -> (r: Result<(), VastatrixError>)
        ensures
            match old(self)@.set_local(index as int, slot@) {
                Ok(f) => r is Ok && final(self)@ == f,
                Err(e) => r == Err::<(), VastatrixError>(e) && final(self)@ == old(self)@,
            },
    {
        if index < self.locals.len() {
            let ghost before = self.locals.deep_view();
            let ghost model = slot@;
            self.locals.set(index, slot);
            assert(self.locals.deep_view() == before.update(index as int, model));
            Ok(())
        } else {
            Err(VastatrixError::LocalOutOfRange)
        }
    }

    /// Copies the local variable `index` to the operand stack and moves on by
    /// `width` bytes.
    fn load(&mut self, index: usize, integer: bool, width: u8) -> (r: Result<(), VastatrixError>)
        ensures
            match old(self)@.load(index as int, integer, width as int) {
                Ok(f) => r is Ok && final(self)@ == f,
                Err(e) => r == Err::<(), VastatrixError>(e),
            },
    {
        if index >= self.locals.len() {
            return Err(VastatrixError::LocalOutOfRange);
        }
        assert(self.locals.deep_view()[index as int] == self.locals[index as int]@);
        let slot = self.locals[index].clone();
        let fits = if integer {
            slot.is_word()
        } else {
            slot.is_ref()
        };
        if !fits {
            return Err(VastatrixError::TypeMismatch);
        }
        let next = self.ip as i64 + width as i64;
        self.push(slot)?;
        self.jump(next)
    }

    /// Moves the top of the operand stack to the local variable `index` and
    /// moves on by `width` bytes.
    fn store(&mut self, index: usize, integer: bool, width: u8) -> (r: Result<(), VastatrixError>)
        ensures
            match old(self)@.store(index as int, integer, width as int) {
                Ok(f) => r is Ok && final(self)@ == f,
                Err(e) => r == Err::<(), VastatrixError>(e),
            },
    {
        let next = self.ip as i64 + width as i64;
        let slot = self.pop()?;
        let fits = if integer {
            slot.is_word()
        } else {
            slot.is_ref()
        };
        if !fits {
            return Err(VastatrixError::TypeMismatch);
        }
        self.set_local(index, slot)?;
        self.jump(next)
    }

    /// Runs one of `iadd`, `isub`, `imul` and `idiv`.
    fn arithmetic(&mut self, op: u8) -> (r: Result<(), VastatrixError>)
        requires
            op == OP_IADD || op == OP_ISUB || op == OP_IMUL || op == OP_IDIV,
        ensures
            match old(self)@.arithmetic(op) {
                Ok(f) => r is Ok && final(self)@ == f,
                Err(e) => r == Err::<(), VastatrixError>(e),
            },
    {
        let next = self.ip as i64 + 1;
        let right = self.pop_int()?;
        let left = self.pop_int()?;
        if op == OP_IDIV && right == 0 {
            return Err(VastatrixError::DivisionByZero);
        }
        let a = Argument::new(left, MethodType::Int);
        let b = Argument::new(right, MethodType::Int);
        let result = if op == OP_IADD {
            a.wrapping_iadd(b)
        } else if op == OP_ISUB {
            a.wrapping_isub(b)
        } else if op == OP_IMUL {
            a.wrapping_imul(b)
        } else {
            a.wrapping_idiv(b)
        };
        self.push(result)?;
        self.jump(next)
    }

    /// Runs the instruction `op`, which stands at the instruction pointer and
    /// touches nothing but the frame. On success the frame is what `execute`
    /// says; on an error the frame is of no use any more.
    pub fn execute(&mut self, op: u8) -> (r: Result<(), VastatrixError>)
        ensures
            match old(self)@.execute(op) {
                Ok(f) => r is Ok && final(self)@ == f,
                Err(e) => r == Err::<(), VastatrixError>(e),
            },
    {
        reveal(FrameModel::execute);
        let at = self.ip as i64;
        if OP_ICONST_M1 <= op && op <= OP_ICONST_5 {
            self.push(Argument::new(op as i32 - 3, MethodType::Int))?;
            self.jump(at + 1)
        } else if op == OP_ILOAD {
            let index = self.fetch(1)?;
            self.load(index as usize, true, 2)
        } else if OP_ILOAD_0 <= op && op <= OP_ILOAD_3 {
            self.load((op - OP_ILOAD_0) as usize, true, 1)
        } else if op == OP_ALOAD_0 {
            self.load(0, false, 1)
        } else if op == OP_ALOAD_2 {
            self.load(2, false, 1)
        } else if op == OP_ISTORE {
            let index = self.fetch(1)?;
            self.store(index as usize, true, 2)
        } else if OP_ISTORE_0 <= op && op <= OP_ISTORE_3 {
            self.store((op - OP_ISTORE_0) as usize, true, 1)
        } else if op == OP_ASTORE_0 {
            self.store(0, false, 1)
        } else if op == OP_ASTORE_2 {
            self.store(2, false, 1)
        } else if op == OP_POP {
            self.pop()?;
            self.jump(at + 1)
        } else if op == OP_DUP {
            if self.stack.len() == 0 {
                return Err(VastatrixError::StackUnderflow);
            }
            let last = self.stack.len() - 1;
            assert(self.stack.deep_view()[last as int] == self.stack[last as int]@);
            let top = self.stack[last].clone();
            self.push(top)?;
            self.jump(at + 1)
        } else if op == OP_IADD || op == OP_ISUB || op == OP_IMUL || op == OP_IDIV {
            self.arithmetic(op)
        } else if op == OP_IINC {
            let index = self.fetch(1)?;
            let by = self.fetch(2)?;
            let delta: i32 = if by >= 0x80 {
                by as i32 - 0x100
            } else {
                by as i32
            };
            if index as usize >= self.locals.len() {
                return Err(VastatrixError::LocalOutOfRange);
            }
            assert(self.locals.deep_view()[index as int] == self.locals[index as int]@);
            let mut slot = self.locals[index as usize].clone();
            if !slot.is_int() {
                return Err(VastatrixError::TypeMismatch);
            }
            slot.add_assign(delta);
            self.set_local(index as usize, slot)?;
            self.jump(at + 3)
        } else if op == OP_GOTO {
            let high = self.fetch(1)?;
            let low = self.fetch(2)?;
            self.jump(at + signed16_of(high, low))
        } else if op == OP_IF_INT_GE {
            let high = self.fetch(1)?;
            let low = self.fetch(2)?;
            let right = self.pop_int()?;
            let left = self.pop_int()?;
            if left >= right {
                self.jump(at + signed16_of(high, low))
            } else {
                self.jump(at + 3)
            }
        } else {
            Err(VastatrixError::UnknownOpcode(op))
        }
    }
}

/// The signed value of the 16 bits made of the bytes `high` and `low`.
pub fn signed16_of(high: u8, low: u8) -> (r: i64)
    ensures
        r == signed16(high, low),
{
    if high >= 0x80 {
        high as i64 * 0x100 + low as i64 - 0x1_0000
    } else {
        high as i64 * 0x100 + low as i64
    }
}

/// `iadd` takes two slots off the operand stack and puts one there: the
/// stack is one slot lower after it.
pub proof fn lemma_iadd_depth(f: FrameModel)
    ensures
        f.execute(OP_IADD) matches Ok(g) ==> g.stack.len() == f.stack.len() - 1,
{
    reveal(FrameModel::execute);
}

/// `dup` leaves the operand stack one slot higher, with the former top
/// twice.
pub proof fn lemma_dup_depth(f: FrameModel)
    ensures
        f.execute(OP_DUP) matches Ok(g) ==> g.stack.len() == f.stack.len() + 1 && g.stack.last()
            == f.stack.last() && g.stack[g.stack.len() - 2] == f.stack.last(),
{
    reveal(FrameModel::execute);
}

/// After `goto` the instruction pointer is the address of the `goto` plus
/// the signed 16-bit offset that follows it, and nothing else has changed.
pub proof fn lemma_goto_target(f: FrameModel)
    ensures
        f.execute(OP_GOTO) matches Ok(g) ==> g == (FrameModel {
            ip: f.ip + signed16(f.code[f.ip + 1], f.code[f.ip + 2]),
            ..f
        }),
{
    reveal(FrameModel::execute);
}

} // verus!
