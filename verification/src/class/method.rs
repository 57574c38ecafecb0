//! Typed slots, their kinds, and the flat form of a method descriptor.

use crate::class::descriptor::lemma_signature_prints_back;
use crate::class::descriptor::lemma_signature_reads_back;
use crate::class::descriptor::method_signature_at;
use crate::class::descriptor::signature_names_ok;
use crate::class::descriptor::signature_text;
use crate::class::descriptor::CharReader;
use crate::class::descriptor::FieldDescriptor;
use crate::class::descriptor::FieldType;
use crate::class::descriptor::MethodDescriptor;
use crate::class::descriptor::MethodSignature;
use vstd::arithmetic::div_mod::lemma_div_decreases;
use vstd::arithmetic::div_mod::lemma_div_nonincreasing;
use vstd::arithmetic::div_mod::lemma_div_pos_is_pos;
use vstd::prelude::*;
use vstd::std_specs::cmp::PartialEqSpec;
use vstd::std_specs::cmp::PartialEqSpecImpl;

verus! {

/// The kind of a typed slot, and the type of a parameter or a result.
#[derive(Debug)]
pub enum MethodType {
    Void,
    Byte,
    Char,
    Double,
    Float,
    Int,
    Long,
    ClassReference { classpath: String },
    Short,
    Boolean,
    ArrayReference,
}

/// The mathematical value of a [`MethodType`].
pub enum Kind {
    Void,
    Byte,
    Char,
    Double,
    Float,
    Int,
    Long,
    ClassReference { classpath: Seq<char> },
    Short,
    Boolean,
    ArrayReference,
}

impl View for MethodType {
    type V = Kind;

    open spec fn view(&self) -> Kind {
        match self {
            MethodType::Void => Kind::Void,
            MethodType::Byte => Kind::Byte,
            MethodType::Char => Kind::Char,
            MethodType::Double => Kind::Double,
            MethodType::Float => Kind::Float,
            MethodType::Int => Kind::Int,
            MethodType::Long => Kind::Long,
            MethodType::ClassReference { classpath } => Kind::ClassReference {
                classpath: classpath@,
            },
            MethodType::Short => Kind::Short,
            MethodType::Boolean => Kind::Boolean,
            MethodType::ArrayReference => Kind::ArrayReference,
        }
    }
}

impl DeepView for MethodType {
    type V = Kind;

    open spec fn deep_view(&self) -> Kind {
        self@
    }
}

impl Clone for MethodType {
    fn clone(&self) -> (r: Self)
        ensures
            r@ == self@,
    {
        match self {
            MethodType::Void => MethodType::Void,
            MethodType::Byte => MethodType::Byte,
            MethodType::Char => MethodType::Char,
            MethodType::Double => MethodType::Double,
            MethodType::Float => MethodType::Float,
            MethodType::Int => MethodType::Int,
            MethodType::Long => MethodType::Long,
            MethodType::ClassReference { classpath } => MethodType::ClassReference {
                classpath: classpath.clone(),
            },
            MethodType::Short => MethodType::Short,
            MethodType::Boolean => MethodType::Boolean,
            MethodType::ArrayReference => MethodType::ArrayReference,
        }
    }
}

impl PartialEq for MethodType {
    fn eq(&self, other: &Self) -> (r: bool) {
        match (self, other) {
            (MethodType::Void, MethodType::Void) => true,
            (MethodType::Byte, MethodType::Byte) => true,
            (MethodType::Char, MethodType::Char) => true,
            (MethodType::Double, MethodType::Double) => true,
            (MethodType::Float, MethodType::Float) => true,
            (MethodType::Int, MethodType::Int) => true,
            (MethodType::Long, MethodType::Long) => true,
            (
                MethodType::ClassReference { classpath: a },
                MethodType::ClassReference { classpath: b },
            ) => *a == *b,
            (MethodType::Short, MethodType::Short) => true,
            (MethodType::Boolean, MethodType::Boolean) => true,
            (MethodType::ArrayReference, MethodType::ArrayReference) => true,
            _ => false,
        }
    }
}

impl PartialEqSpecImpl for MethodType {
    open spec fn obeys_eq_spec() -> bool {
        true
    }

    open spec fn eq_spec(&self, other: &Self) -> bool {
        self@ == other@
    }
}

/// The kind of a slot that holds a value of the field type `t`. An array is
/// one reference, whatever it is an array of.
pub open spec fn kind_of(t: FieldType) -> Kind {
    match t {
        FieldType::Byte => Kind::Byte,
        FieldType::Char => Kind::Char,
        FieldType::Double => Kind::Double,
        FieldType::Float => Kind::Float,
        FieldType::Int => Kind::Int,
        FieldType::Long => Kind::Long,
        FieldType::ClassReference(classpath) => Kind::ClassReference { classpath },
        FieldType::Short => Kind::Short,
        FieldType::Boolean => Kind::Boolean,
        FieldType::ArrayReference(_) => Kind::ArrayReference,
    }
}

/// The kind of a slot that holds a value of the type `d`.
pub fn method_type_of(d: &FieldDescriptor) -> (r: MethodType)
    ensures
        r@ == kind_of(d@),
{
    match d {
        FieldDescriptor::Byte => MethodType::Byte,
        FieldDescriptor::Char => MethodType::Char,
        FieldDescriptor::Double => MethodType::Double,
        FieldDescriptor::Float => MethodType::Float,
        FieldDescriptor::Int => MethodType::Int,
        FieldDescriptor::Long => MethodType::Long,
        FieldDescriptor::ClassReference(classpath) => MethodType::ClassReference {
            classpath: classpath.clone(),
        },
        FieldDescriptor::Short => MethodType::Short,
        FieldDescriptor::Boolean => MethodType::Boolean,
        FieldDescriptor::ArrayReference(_) => MethodType::ArrayReference,
    }
}

/// The flat form of a method descriptor: one kind for each parameter, and the
/// kind of the result, which is `Void` for a method that returns nothing.
#[derive(Debug)]
pub struct Descriptor {
    pub types: Vec<MethodType>,
    pub returns: Option<MethodType>,
}

/// The mathematical value of a [`Descriptor`].
pub struct DescriptorModel {
    pub types: Seq<Kind>,
    pub returns: Option<Kind>,
}

impl View for Descriptor {
    type V = DescriptorModel;

    open spec fn view(&self) -> DescriptorModel {
        DescriptorModel {
            types: self.types.deep_view(),
            returns: match self.returns {
                Some(t) => Some(t@),
                None => None,
            },
        }
    }
}

/// The flat form of a method signature.
pub open spec fn flatten(m: MethodSignature) -> DescriptorModel {
    DescriptorModel {
        types: m.parameters.map_values(|t: FieldType| kind_of(t)),
        returns: Some(
            match m.returns {
                Some(t) => kind_of(t),
                None => Kind::Void,
            },
        ),
    }
}

/// What the descriptor text `s` stands for: `s` is one method descriptor from its
/// first character to its last. `None` for any other text.
pub open spec fn descriptor_of(s: Seq<char>) -> Option<DescriptorModel> {
    match method_signature_at(s, 0) {
        Some((m, end)) => if end == s.len() {
            Some(flatten(m))
        } else {
            None
        },
        None => None,
    }
}

impl Descriptor {
    /// Parses a method descriptor. The result is `None` exactly where the text
    /// is not one whole method descriptor.
    pub fn parse(desc: &str) -> (r: Option<Self>)
        ensures
            match descriptor_of(desc@) {
                Some(m) => r matches Some(d) && d@ == m,
                None => r is None,
            },
    {
        let mut reader = CharReader::new(desc);
        let parsed = MethodDescriptor::read_from(&mut reader);
        match parsed {
            Some(m) => {
                if reader.remaining() != 0 {
                    return None;
                }
                let mut types: Vec<MethodType> = Vec::new();
                let mut i: usize = 0;
                while i < m.parameters.len()
                    invariant
                        i <= m.parameters.len(),
                        types.len() == i,
                        forall|k: int|
                            0 <= k < i ==> (#[trigger] types[k])@ == kind_of(m.parameters[k]@),
                    decreases m.parameters.len() - i,
                {
                    types.push(method_type_of(&m.parameters[i]));
                    i = i + 1;
                }
                let result = match &m.returns {
                    Some(t) => method_type_of(t),
                    None => MethodType::Void,
                };
                let d = Descriptor { types, returns: Some(result) };
                assert(d@.types =~= flatten(m@).types);
                Some(d)
            },
            None => None,
        }
    }

    /// The descriptor that the text `desc` stands for.
    pub fn new(desc: String) -> (r: Self)
        requires
            descriptor_of(desc@) is Some,
        ensures
            Some(r@) == descriptor_of(desc@),
    {
        match Self::parse(desc.as_str()) {
            Some(d) => d,
            None => Descriptor { types: Vec::new(), returns: None },
        }
    }

    /// How many parameters the method takes.
    pub fn parameter_count(&self) -> (r: usize)
        ensures
            r == self@.types.len(),
    {
        self.types.len()
    }

    /// Whether the method hands a value back to its caller.
    pub fn returns_value(&self) -> (r: bool)
        ensures
            r == self@.returns_value(),
    {
        match &self.returns {
            Some(MethodType::Void) => false,
            Some(_) => true,
            None => false,
        }
    }
}

impl DescriptorModel {
    /// Whether a method of this descriptor hands a value back to its caller.
    pub open spec fn returns_value(self) -> bool {
        self.returns matches Some(k) && !(k is Void)
    }
}

impl PartialEq for Descriptor {
    fn eq(&self, other: &Descriptor) -> (r: bool) {
        let r = self.types == other.types && self.returns == other.returns;
        proof {
            if self.types.len() == other.types.len() {
                assert((forall|i: int|
                    0 <= i < self.types.len() ==> (#[trigger] self.types[i])@ == other.types[i]@)
                    <==> self.types.deep_view() =~= other.types.deep_view()) by {
                    if self.types.deep_view() =~= other.types.deep_view() {
                        assert forall|i: int| 0 <= i < self.types.len() implies (
                        #[trigger] self.types[i])@ == other.types[i]@ by {
                            assert(self.types.deep_view()[i] == other.types.deep_view()[i]);
                        }
                    }
                }
            } else {
                assert(self.types.deep_view().len() != other.types.deep_view().len());
            }
        }
        r
    }
}

impl PartialEqSpecImpl for Descriptor {
    open spec fn obeys_eq_spec() -> bool {
        true
    }

    open spec fn eq_spec(&self, other: &Descriptor) -> bool {
        self@ == other@
    }
}

/// Equality of descriptors is symmetric: `a == b` says that the parameter
/// kinds and the result kind agree, whichever side is asked.
pub proof fn lemma_descriptor_eq_symmetric(a: Descriptor, b: Descriptor)
    ensures
        PartialEqSpec::eq_spec(&a, &b) == PartialEqSpec::eq_spec(&b, &a),
{
}

/// Equality of descriptors is transitive.
pub proof fn lemma_descriptor_eq_transitive(a: Descriptor, b: Descriptor, c: Descriptor)
    requires
        PartialEqSpec::eq_spec(&a, &b),
        PartialEqSpec::eq_spec(&b, &c),
    ensures
        PartialEqSpec::eq_spec(&a, &c),
{
}

/// Two descriptors parsed from the same text are equal, and a descriptor is
/// equal to another exactly where the parameter kinds and the result kind are
/// the same.
pub proof fn lemma_descriptor_eq_by_parts(a: Descriptor, b: Descriptor)
    ensures
        PartialEqSpec::eq_spec(&a, &b) <==> (a@.types == b@.types && a@.returns == b@.returns),
{
}

/// A descriptor round-trips: the text of a method signature parses to the
/// flat form of that signature.
pub proof fn lemma_descriptor_round_trip(m: MethodSignature)
    requires
        signature_names_ok(m),
    ensures
        descriptor_of(signature_text(m)) == Some(flatten(m)),
{
    lemma_signature_reads_back(m);
}

/// A text that parses to a descriptor is the text of a method signature, and
/// the descriptor is the flat form of that signature: no two texts parse to
/// descriptors of different signatures by accident.
pub proof fn lemma_descriptor_source(s: Seq<char>)
    requires
        descriptor_of(s) is Some,
    ensures
        exists|m: MethodSignature|
            signature_names_ok(m) && #[trigger] signature_text(m) == s && descriptor_of(s) == Some(
                flatten(m),
            ),
{
    let (m, _) = method_signature_at(s, 0)->0;
    lemma_signature_prints_back(s);
    assert(signature_text(m) == s);
}

/// The 32-bit two's-complement value of the integer `x`.
pub open spec fn wrap_i32(x: int) -> int {
    let m = x % 0x1_0000_0000;
    if m > 0x7fff_ffff {
        m - 0x1_0000_0000
    } else {
        m
    }
}

/// The quotient of `x` by `d` rounded toward zero; `d` is not zero.
pub open spec fn trunc_div(x: int, d: int) -> int {
    if x == 0 {
        0
    } else if x > 0 && d > 0 {
        x / d
    } else if x < 0 && d < 0 {
        ((x * -1) / (d * -1))
    } else if x < 0 {
        ((x * -1) / d) * -1
    } else {
        (x / (d * -1)) * -1
    }
}

/// A number that can be the payload of a typed slot.
pub trait Num {
    /// The payload as an integer.
    spec fn payload(&self) -> int;

    /// The payload in 64 bits.
    fn as_i64(&self) -> (r: i64)
        ensures
            r == self.payload(),
    ;

    /// The number converted as `as usize` converts it.
    fn as_usize(&self) -> usize;
}

impl Num for u32 {
    open spec fn payload(&self) -> int {
        *self as int
    }

    fn as_i64(&self) -> (r: i64) {
        *self as i64
    }

    fn as_usize(&self) -> (r: usize)
        ensures
            r == *self,
    {
        *self as usize
    }
}

impl Num for i32 {
    open spec fn payload(&self) -> int {
        *self as int
    }

    fn as_i64(&self) -> (r: i64) {
        *self as i64
    }

    fn as_usize(&self) -> (r: usize)
        ensures
            r == (*self as usize),
    {
        *self as usize
    }
}

/// A typed slot: a payload of 64 bits and the kind that says how to read it.
#[derive(Debug)]
pub struct Argument {
    value: i64,
    is: MethodType,
}

/// The mathematical value of an [`Argument`].
pub struct Slot {
    pub value: int,
    pub kind: Kind,
}

impl Slot {
    /// Whether the slot holds a 32-bit integer.
    pub open spec fn is_int(self) -> bool {
        self.kind is Int && i32::MIN <= self.value <= i32::MAX
    }

    /// Whether the slot holds an integer of 32 bits or of one of the narrower
    /// kinds that travel as such an integer: `Int`, `Boolean`, `Byte`, `Char`
    /// or `Short`.
    pub open spec fn is_word(self) -> bool {
        (self.kind is Int || self.kind is Boolean || self.kind is Byte || self.kind is Char
            || self.kind is Short) && i32::MIN <= self.value <= i32::MAX
    }

    /// Whether the slot holds a reference: the handle of an instance or of an
    /// array.
    pub open spec fn is_ref(self) -> bool {
        (self.kind is ClassReference || self.kind is ArrayReference) && 0 <= self.value
            <= u32::MAX
    }

    /// The slot that holds the 32-bit integer `v`.
    pub open spec fn of_int(v: int) -> Slot {
        Slot { value: v, kind: Kind::Int }
    }

    /// The slot that every local variable starts with.
    pub open spec fn void() -> Slot {
        Slot { value: 0, kind: Kind::Void }
    }
}

impl View for Argument {
    type V = Slot;

    closed spec fn view(&self) -> Slot {
        Slot { value: self.value as int, kind: self.is@ }
    }
}

impl DeepView for Argument {
    type V = Slot;

    open spec fn deep_view(&self) -> Slot {
        self@
    }
}

impl Clone for Argument {
    fn clone(&self) -> (r: Self)
        ensures
            r@ == self@,
    {
        Argument { value: self.value, is: self.is.clone() }
    }
}

impl PartialEq for Argument {
    fn eq(&self, other: &Argument) -> (r: bool) {
        self.value == other.value && self.is == other.is
    }
}

impl PartialEqSpecImpl for Argument {
    open spec fn obeys_eq_spec() -> bool {
        true
    }

    open spec fn eq_spec(&self, other: &Argument) -> bool {
        self@ == other@
    }
}

impl Argument {
    /// The slot with the payload `value` and the kind `is`.
    pub fn new(value: impl Num + 'static, is: MethodType) -> (r: Self)
        ensures
            r@ == (Slot { value: value.payload(), kind: is@ }),
    {
        Argument { value: value.as_i64(), is }
    }

    /// The slot with the payload `value` and the kind `is`.
    pub fn with_payload(value: i64, is: MethodType) -> (r: Self)
        ensures
            r@ == (Slot { value: value as int, kind: is@ }),
    {
        Argument { value, is }
    }

    /// The handle that a reference slot holds.
    pub fn value_ref(&mut self) -> (r: u32)
        requires
            old(self)@.is_ref(),
        ensures
            r == old(self)@.value,
            final(self)@ == old(self)@,
    {
        self.value as u32
    }

    /// Whether the slot's kind is `other`.
    pub fn is(&self, other: MethodType) -> (r: bool)
        ensures
            r == (self@.kind == other@),
    {
        self.is == other
    }

    /// Whether the slot's kind is `Void`.
    pub fn void(&self) -> (r: bool)
        ensures
            r == (self@.kind is Void),
    {
        match self.is {
            MethodType::Void => true,
            _ => false,
        }
    }

    /// Whether the slot holds a 32-bit integer.
    pub fn is_int(&self) -> (r: bool)
        ensures
            r == self@.is_int(),
    {
        match self.is {
            MethodType::Int => -0x8000_0000 <= self.value && self.value <= 0x7fff_ffff,
            _ => false,
        }
    }

    /// Whether the slot holds an integer of 32 bits or of a narrower kind.
    pub fn is_word(&self) -> (r: bool)
        ensures
            r == self@.is_word(),
    {
        match self.is {
            MethodType::Int => -0x8000_0000 <= self.value && self.value <= 0x7fff_ffff,
            MethodType::Boolean => -0x8000_0000 <= self.value && self.value <= 0x7fff_ffff,
            MethodType::Byte => -0x8000_0000 <= self.value && self.value <= 0x7fff_ffff,
            MethodType::Char => -0x8000_0000 <= self.value && self.value <= 0x7fff_ffff,
            MethodType::Short => -0x8000_0000 <= self.value && self.value <= 0x7fff_ffff,
            _ => false,
        }
    }

    /// Whether the slot holds the handle of an instance or of an array.
    pub fn is_ref(&self) -> (r: bool)
        ensures
            r == self@.is_ref(),
    {
        match self.is {
            MethodType::ClassReference { .. } => 0 <= self.value && self.value <= 0xffff_ffff,
            MethodType::ArrayReference => 0 <= self.value && self.value <= 0xffff_ffff,
            _ => false,
        }
    }

    /// The handle that a reference slot holds.
    pub fn reference(&self) -> (r: u32)
        requires
            self@.is_ref(),
        ensures
            r == self@.value,
    {
        self.value as u32
    }

    /// The payload.
    pub fn value(&self) -> (r: i64)
        ensures
            r == self@.value,
    {
        self.value
    }

    /// The kind.
    pub fn kind(&self) -> (r: &MethodType)
        ensures
            r@ == self@.kind,
    {
        &self.is
    }

    /// The 32-bit integer that an `Int` slot holds.
    pub fn int_value(&self) -> (r: i32)
        requires
            self@.is_int(),
        ensures
            r == self@.value,
    {
        self.value as i32
    }

    /// The sum of two `Int` slots, wrapped to 32 bits.
    pub fn wrapping_iadd(self, rhs: Self) -> (r: Self)
        requires
            self@.is_int(),
            rhs@.is_int(),
        ensures
            r@ == Slot::of_int(wrap_i32(self@.value + rhs@.value)),
    {
        let a = self.value as i32;
        let b = rhs.value as i32;
        Argument { value: a.wrapping_add(b) as i64, is: MethodType::Int }
    }

    /// The difference of two `Int` slots, wrapped to 32 bits.
    pub fn wrapping_isub(self, rhs: Self) -> (r: Self)
        requires
            self@.is_int(),
            rhs@.is_int(),
        ensures
            r@ == Slot::of_int(wrap_i32(self@.value - rhs@.value)),
    {
        let a = self.value as i32;
        let b = rhs.value as i32;
        Argument { value: a.wrapping_sub(b) as i64, is: MethodType::Int }
    }

    /// The product of two `Int` slots, wrapped to 32 bits.
    pub fn wrapping_imul(self, rhs: Self) -> (r: Self)
        requires
            self@.is_int(),
            rhs@.is_int(),
        ensures
            r@ == Slot::of_int(wrap_i32(self@.value * rhs@.value)),
    {
        let a = self.value as i32;
        let b = rhs.value as i32;
        Argument { value: a.wrapping_mul(b) as i64, is: MethodType::Int }
    }

    /// The quotient of two `Int` slots, rounded toward zero and wrapped to 32
    /// bits. The divisor is not zero.
    pub fn wrapping_idiv(self, rhs: Self) -> (r: Self)
        requires
            self@.is_int(),
            rhs@.is_int(),
            rhs@.value != 0,
        ensures
            r@ == Slot::of_int(wrap_i32(trunc_div(self@.value, rhs@.value))),
    {
        let a = self.value as i32;
        let b = rhs.value as i32;
        proof {
            lemma_trunc_div_bounds(a as int, b as int);
            lemma_wrap_i32(trunc_div(a as int, b as int));
        }
        let q = match a.checked_div(b) {
            Some(q) => q,
            None => i32::MIN,
        };
        assert(q == wrap_i32(trunc_div(a as int, b as int)));
        Argument { value: q as i64, is: MethodType::Int }
    }

    /// Adds `rhs` to an `Int` slot, wrapped to 32 bits.
    pub fn add_assign(&mut self, rhs: i32)
        requires
            old(self)@.is_int(),
        ensures
            final(self)@ == Slot::of_int(wrap_i32(old(self)@.value + rhs)),
    {
        let a = self.value as i32;
        self.value = a.wrapping_add(rhs) as i64;
    }
}

/// Wrapping leaves a 32-bit integer as it is, and takes `2^31` to `-2^31`.
pub proof fn lemma_wrap_i32(x: int)
    ensures
        i32::MIN <= x <= i32::MAX ==> wrap_i32(x) == x,
        x == 0x8000_0000 ==> wrap_i32(x) == -0x8000_0000,
        i32::MIN <= wrap_i32(x) <= i32::MAX,
{
}

/// The quotient of two 32-bit integers rounded toward zero lies between
/// `-2^31` and `2^31`, and reaches `2^31` only for `-2^31 / -1`.
pub proof fn lemma_trunc_div_bounds(x: int, d: int)
    requires
        i32::MIN <= x <= i32::MAX,
        i32::MIN <= d <= i32::MAX,
        d != 0,
    ensures
        -0x8000_0000 <= trunc_div(x, d) <= 0x8000_0000,
        trunc_div(x, d) == 0x8000_0000 <==> (x == i32::MIN && d == -1),
{
    if x > 0 && d > 0 {
        lemma_div_pos_is_pos(x, d);
        lemma_div_nonincreasing(x, d);
    } else if x < 0 && d < 0 {
        lemma_div_pos_is_pos(x * -1, d * -1);
        lemma_div_nonincreasing(x * -1, d * -1);
        if d < -1 {
            lemma_div_decreases(x * -1, d * -1);
        } else {
            assert(d * -1 == 1);
            assert((x * -1) / 1 == x * -1);
        }
    } else if x < 0 {
        lemma_div_pos_is_pos(x * -1, d);
        lemma_div_nonincreasing(x * -1, d);
    } else if x > 0 {
        lemma_div_pos_is_pos(x, d * -1);
        lemma_div_nonincreasing(x, d * -1);
    }
}

/// A copy of the slots `v`.
pub fn clone_slots(v: &Vec<Argument>) -> (r: Vec<Argument>)
    ensures
        r.deep_view() == v.deep_view(),
{
    let mut out: Vec<Argument> = Vec::new();
    let mut i: usize = 0;
    while i < v.len()
        invariant
            i <= v.len(),
            out.len() == i,
            forall|k: int| 0 <= k < i ==> (#[trigger] out[k])@ == v[k]@,
        decreases v.len() - i,
    {
        out.push(v[i].clone());
        i = i + 1;
    }
    assert(out.deep_view() =~= v.deep_view());
    out
}

/// Whether the slots `a` and `b` are the same, one by one.
pub fn same_slots(a: &Vec<Argument>, b: &Vec<Argument>) -> (r: bool)
    ensures
        r == (a.deep_view() == b.deep_view()),
{
    if a.len() != b.len() {
        assert(a.deep_view().len() != b.deep_view().len());
        return false;
    }
    let mut i: usize = 0;
    while i < a.len()
        invariant
            i <= a.len(),
            a.len() == b.len(),
            forall|k: int| 0 <= k < i ==> (#[trigger] a[k])@ == b[k]@,
        decreases a.len() - i,
    {
        if !(a[i] == b[i]) {
            assert(a.deep_view()[i as int] != b.deep_view()[i as int]);
            return false;
        }
        i = i + 1;
    }
    assert(a.deep_view() =~= b.deep_view());
    true
}

} // verus!
