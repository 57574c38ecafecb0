//! The heap: the classes that are loaded and the objects that live, each
//! behind a handle that stays what it is for as long as the machine runs.

use crate::bridge::builtin_table;
use crate::bridge::expose_classes;
use crate::bridge::fits_pool;
use crate::bridge::native_method;
use crate::bridge::native_method_of;
use crate::bridge::synthesize;
use crate::bridge::synthesized;
use crate::bridge::ClassDataModel;
use crate::bridge::NativeMethod;
use crate::buffer::buf_from_vec;
use crate::buffer::text_is;
use crate::class::attribute::pool_text;
use crate::class::attribute::Attribute;
use crate::class::attribute::AttributeModel;
use crate::class::classpath::source_index;
use crate::class::classpath::Classpath;
use crate::class::definition::class_name_at;
use crate::class::definition::class_name_of;
use crate::class::definition::class_of;
use crate::class::definition::field_ref_at;
use crate::class::definition::find_field;
use crate::class::definition::field_ref_of;
use crate::class::definition::declares_method;
use crate::class::definition::method_ref_at;
use crate::class::definition::method_ref_of;
use crate::class::definition::new_frame;
use crate::class::definition::MemberRef;
use crate::class::definition::MemberRefModel;
use crate::class::frame::BytecodeFrame;
use crate::class::frame::FrameModel;
use crate::class::method::descriptor_of;
use crate::class::method::Descriptor;
use crate::class::method::DescriptorModel;
use crate::class::definition::text_at;
use crate::class::definition::ConstantsPoolInfo;
use crate::class::definition::FieldInfo;
use crate::class::definition::MemberModel;
use crate::class::definition::PoolEntry;
use crate::class::descriptor::field_type_at;
use crate::class::descriptor::CharReader;
use crate::class::descriptor::FieldDescriptor;
use crate::class::method::kind_of;
use crate::class::method::method_type_of;
use crate::class::definition::ClassFile;
use crate::class::definition::ClassModel;
use crate::class::instance::Instance;
use crate::class::method::Argument;
use crate::class::method::Kind;
use crate::class::method::MethodType;
use crate::class::method::Slot;
use crate::VastatrixError;
use vstd::prelude::*;

verus! {

/// What lives on the heap behind an object handle.
#[derive(Debug)]
pub enum VTXObject {
    Instance(Instance),
    Array((MethodType, Vec<Argument>)),
}

/// The mathematical value of a [`VTXObject`].
pub enum ObjectModel {
    Instance(Map<Seq<char>, Slot>),
    Array(Kind, Seq<Slot>),
}

impl View for VTXObject {
    type V = ObjectModel;

    open spec fn view(&self) -> ObjectModel {
        match self {
            VTXObject::Instance(instance) => ObjectModel::Instance(instance@),
            VTXObject::Array(array) => ObjectModel::Array(array.0@, array.1.deep_view()),
        }
    }
}

impl DeepView for VTXObject {
    type V = ObjectModel;

    open spec fn deep_view(&self) -> ObjectModel {
        self@
    }
}

/// The mathematical value of a [`Vastatrix`]: the classes by handle, the name
/// of each, the objects by handle, and the class source.
pub struct VmModel {
    pub classes: Seq<ClassModel>,
    pub names: Seq<Seq<char>>,
    pub objects: Seq<ObjectModel>,
    pub source: Seq<(Seq<char>, Seq<u8>)>,
}

/// The first index at which `names` holds `name`.
pub open spec fn name_index(names: Seq<Seq<char>>, name: Seq<char>) -> Option<int>
    decreases names.len(),
{
    if names.len() == 0 {
        None
    } else {
        match name_index(names.drop_last(), name) {
            Some(i) => Some(i),
            None => if names.last() == name {
                Some(names.len() - 1)
            } else {
                None
            },
        }
    }
}

/// `name_index` gives an index at which the name stands, and `None` only
/// where it stands nowhere.
pub proof fn lemma_name_index(names: Seq<Seq<char>>, name: Seq<char>)
    ensures
        match name_index(names, name) {
            Some(i) => 0 <= i < names.len() && names[i] == name && forall|k: int|
                0 <= k < i ==> names[k] != name,
            None => forall|k: int| 0 <= k < names.len() ==> names[k] != name,
        },
    decreases names.len(),
{
    if names.len() > 0 {
        lemma_name_index(names.drop_last(), name);
        assert forall|k: int| 0 <= k < names.len() - 1 implies names.drop_last()[k]
            == names[k] by {}
    }
}

impl VmModel {
    /// What holds of every heap: each class has a name and knows its own
    /// handle, no name stands twice, and every handle fits in 32 bits.
    pub open spec fn wf(self) -> bool {
        &&& self.names.len() == self.classes.len()
        &&& self.classes.len() <= u32::MAX
        &&& self.objects.len() <= u32::MAX
        &&& forall|i: int, j: int|
            0 <= i < j < self.names.len() ==> self.names[i] != self.names[j]
        &&& forall|i: int|
            0 <= i < self.classes.len() ==> (#[trigger] self.classes[i]).handle == Some(i as u32)
    }

    /// The heap with one class more, under the next free handle.
    pub open spec fn with_class(self, name: Seq<char>, class: ClassModel) -> VmModel {
        VmModel {
            classes: self.classes.push(
                ClassModel { handle: Some(self.classes.len() as u32), ..class },
            ),
            names: self.names.push(name),
            ..self
        }
    }

    /// The heap with one object more, under the next free handle.
    pub open spec fn with_object(self, object: ObjectModel) -> VmModel {
        VmModel { objects: self.objects.push(object), ..self }
    }

    /// Loading the class `name`: the handle of the class where it is loaded
    /// already; else the class is decoded from the class file of that name and
    /// takes the next free handle.
    pub open spec fn load(self, name: Seq<char>) -> Result<(VmModel, u32), VastatrixError> {
        match name_index(self.names, name) {
            Some(h) => Ok((self, h as u32)),
            None => match source_index(self.source, name) {
                None => Err(VastatrixError::ClasspathIncomplete),
                Some(at) => match class_of(self.source[at].1) {
                    Err(e) => Err(VastatrixError::Class(e, at as usize)),
                    Ok(class) => if self.classes.len() >= u32::MAX {
                        Err(VastatrixError::OutOfHandles)
                    } else {
                        Ok((self.with_class(name, class), self.classes.len() as u32))
                    },
                },
            },
        }
    }
}

/// The kind of a field with the descriptor `text`: the kind that the text
/// stands for where it is one whole field type, and `Void` elsewhere.
pub open spec fn field_kind(text: Seq<char>) -> Kind {
    match field_type_at(text, 0) {
        Some((t, end)) => if end == text.len() {
            kind_of(t)
        } else {
            Kind::Void
        },
        None => Kind::Void,
    }
}

/// The kind of a field with the descriptor `text`.
pub fn field_kind_of(text: &str) -> (r: MethodType)
    ensures
        r@ == field_kind(text@),
{
    let mut reader = CharReader::new(text);
    match FieldDescriptor::read_from(&mut reader) {
        Some(d) => {
            if reader.remaining() == 0 {
                method_type_of(&d)
            } else {
                MethodType::Void
            }
        },
        None => MethodType::Void,
    }
}

/// The pool index that the first `ConstantValue` among `attributes` holds.
pub open spec fn constant_index(attributes: Seq<AttributeModel>) -> Option<u16>
    decreases attributes.len(),
{
    if attributes.len() == 0 {
        None
    } else {
        match attributes[0] {
            AttributeModel::ConstantValue { constantvalue_index, .. } => Some(constantvalue_index),
            _ => constant_index(attributes.skip(1)),
        }
    }
}

/// The pool index that the first `ConstantValue` among `attributes` holds.
fn constant_index_of(attributes: &Vec<Attribute>) -> (r: Option<u16>)
    ensures
        r == constant_index(attributes.deep_view()),
{
    let ghost all = attributes.deep_view();
    let mut i: usize = 0;
    assert(all.skip(0) == all);
    while i < attributes.len()
        invariant
            i <= attributes.len(),
            all == attributes.deep_view(),
            constant_index(all) == constant_index(all.skip(i as int)),
        decreases attributes.len() - i,
    {
        assert(all.skip(i as int)[0] == attributes[i as int].model());
        assert(all.skip(i as int).skip(1) == all.skip(i + 1));
        match &attributes[i] {
            Attribute::ConstantValue { constantvalue_index, .. } => {
                return Some(*constantvalue_index);
            },
            _ => {},
        }
        i = i + 1;
    }
    None
}

/// The signed value of the 32 bits `bits`.
pub open spec fn signed32(bits: u32) -> int {
    if bits >= 0x8000_0000 {
        bits - 0x1_0000_0000
    } else {
        bits as int
    }
}

/// The signed value of the 64 bits made of `high` and `low`.
pub open spec fn signed64(high: u32, low: u32) -> int {
    signed32(high) * 0x1_0000_0000 + low
}

/// The payload that the constant at the pool index `index` gives a field: the
/// signed value of an `Integer`, of a `Long` or of the bits of a `Double`, the
/// bits of a `Float`, and 0 for any other entry.
pub open spec fn constant_payload(pool: Seq<PoolEntry>, index: int) -> int {
    if 0 <= index < pool.len() {
        match pool[index] {
            PoolEntry::Integer { bytes } => signed32(bytes),
            PoolEntry::Float { bytes } => bytes as int,
            PoolEntry::Long { high_bytes, low_bytes } => signed64(high_bytes, low_bytes),
            PoolEntry::Double { high_bytes, low_bytes } => signed64(high_bytes, low_bytes),
            _ => 0,
        }
    } else {
        0
    }
}

/// The signed value of the 32 bits `bits`.
fn signed32_of(bits: u32) -> (r: i64)
    ensures
        r == signed32(bits),
{
    if bits >= 0x8000_0000 {
        bits as i64 - 0x1_0000_0000
    } else {
        bits as i64
    }
}

/// The payload that the constant at the pool index `index` gives a field.
fn constant_payload_of(pool: &Vec<ConstantsPoolInfo>, index: u16) -> (r: i64)
    ensures
        r == constant_payload(pool.deep_view(), index as int),
{
    if (index as usize) < pool.len() {
        assert(pool.deep_view()[index as int] == pool[index as int]@);
        match &pool[index as usize] {
            ConstantsPoolInfo::Integer { bytes } => signed32_of(*bytes),
            ConstantsPoolInfo::Float { bytes } => *bytes as i64,
            ConstantsPoolInfo::Long { high_bytes, low_bytes } => signed32_of(*high_bytes)
                * 0x1_0000_0000 + (*low_bytes as i64),
            ConstantsPoolInfo::Double { high_bytes, low_bytes } => signed32_of(*high_bytes)
                * 0x1_0000_0000 + (*low_bytes as i64),
            _ => 0,
        }
    } else {
        0
    }
}

/// Whether the flags of a field say that it is static.
pub open spec fn is_static(access_flags: u16) -> bool {
    (access_flags / 8) % 2 == 1
}

/// The slot that a new instance holds for `field`: its kind is that of the
/// field's descriptor, and its payload is 0, or the constant of a static field
/// that has a `ConstantValue`.
pub open spec fn initial_slot(pool: Seq<PoolEntry>, field: MemberModel) -> Slot {
    Slot {
        value: if is_static(field.access_flags) {
            match constant_index(field.attribute_info) {
                Some(index) => constant_payload(pool, index as int),
                None => 0,
            }
        } else {
            0
        },
        kind: match pool_text(pool, field.descriptor_index as int) {
            Some(text) => field_kind(text),
            None => Kind::Void,
        },
    }
}

/// The fields that a new instance of a class with the fields `fields` holds.
/// A field whose name index leads to no `Utf8` is left out, and of two fields
/// of one name the later one stays.
pub open spec fn initial_fields(pool: Seq<PoolEntry>, fields: Seq<MemberModel>) -> Map<
    Seq<char>,
    Slot,
>
    decreases fields.len(),
{
    if fields.len() == 0 {
        Map::empty()
    } else {
        let before = initial_fields(pool, fields.drop_last());
        match pool_text(pool, fields.last().name_index as int) {
            Some(name) => before.insert(name, initial_slot(pool, fields.last())),
            None => before,
        }
    }
}

/// The slot that a new instance holds for `field`.
fn initial_slot_of(pool: &Vec<ConstantsPoolInfo>, field: &FieldInfo) -> (r: Argument)
    ensures
        r@ == initial_slot(pool.deep_view(), field@),
{
    let value: i64 = if (field.access_flags / 8) % 2 == 1 {
        match constant_index_of(&field.attribute_info) {
            Some(index) => constant_payload_of(pool, index),
            None => 0,
        }
    } else {
        0
    };
    let kind = match text_at(pool, field.descriptor_index) {
        Some(text) => field_kind_of(text.as_str()),
        None => MethodType::Void,
    };
    Argument::with_payload(value, kind)
}

/// A new instance of `class`.
fn instantiate(class: &ClassFile) -> (r: Instance)
    ensures
        r@ == initial_fields(class@.constant_pool, class@.fields),
{
    let ghost pool = class.constant_pool.deep_view();
    let ghost all = class.fields.deep_view();
    let mut instance = Instance::new();
    let mut i: usize = 0;
    while i < class.fields.len()
        invariant
            i <= class.fields.len(),
            pool == class.constant_pool.deep_view(),
            all == class.fields.deep_view(),
            instance@ == initial_fields(pool, all.take(i as int)),
        decreases class.fields.len() - i,
    {
        assert(all.take(i + 1).drop_last() == all.take(i as int));
        assert(all.take(i + 1).last() == class.fields[i as int]@);
        let field = &class.fields[i];
        match text_at(&class.constant_pool, field.name_index) {
            Some(name) => {
                let slot = initial_slot_of(&class.constant_pool, field);
                instance.insert(name.clone(), slot);
            },
            None => {},
        }
        i = i + 1;
    }
    assert(all.take(all.len() as int) == all);
    instance
}

impl VmModel {
    /// Making an instance of the class behind `class`: the new instance takes
    /// the next free object handle.
    pub open spec fn prepare_instance(self, class: u32) -> Result<(VmModel, u32), VastatrixError> {
        if class >= self.classes.len() {
            Err(VastatrixError::BadHandle(class))
        } else if self.objects.len() >= u32::MAX {
            Err(VastatrixError::OutOfHandles)
        } else {
            Ok(
                (
                    self.with_object(
                        ObjectModel::Instance(
                            initial_fields(
                                self.classes[class as int].constant_pool,
                                self.classes[class as int].fields,
                            ),
                        ),
                    ),
                    self.objects.len() as u32,
                ),
            )
        }
    }

    /// Making an array of the slots `elements`: the new array takes the next
    /// free object handle.
    pub open spec fn create_array(self, elements: Seq<Slot>, of: Kind) -> Result<
        (VmModel, u32),
        VastatrixError,
    > {
        if self.objects.len() >= u32::MAX {
            Err(VastatrixError::OutOfHandles)
        } else {
            Ok((self.with_object(ObjectModel::Array(of, elements)), self.objects.len() as u32))
        }
    }

    /// The fields of the instance behind `handle`.
    pub open spec fn instance(self, handle: int) -> Result<Map<Seq<char>, Slot>, VastatrixError> {
        if 0 <= handle < self.objects.len() {
            match self.objects[handle] {
                ObjectModel::Instance(fields) => Ok(fields),
                _ => Err(VastatrixError::BadHandle(handle as u32)),
            }
        } else {
            Err(VastatrixError::BadHandle(handle as u32))
        }
    }

    /// The element kind and the elements of the array behind `handle`.
    pub open spec fn array(self, handle: int) -> Result<(Kind, Seq<Slot>), VastatrixError> {
        if 0 <= handle < self.objects.len() {
            match self.objects[handle] {
                ObjectModel::Array(of, elements) => Ok((of, elements)),
                _ => Err(VastatrixError::BadHandle(handle as u32)),
            }
        } else {
            Err(VastatrixError::BadHandle(handle as u32))
        }
    }

    /// Reading the field `name` of the instance behind `handle`.
    pub open spec fn get_field(self, handle: u32, name: Seq<char>) -> Result<Slot, VastatrixError> {
        match self.instance(handle as int) {
            Err(e) => Err(e),
            Ok(fields) => if fields.dom().contains(name) {
                Ok(fields[name])
            } else {
                Err(VastatrixError::NoSuchField)
            },
        }
    }

    /// Writing the field `name` of the instance behind `handle`, which gets
    /// that field where it did not have it.
    pub open spec fn put_field(self, handle: u32, name: Seq<char>, value: Slot) -> Result<
        VmModel,
        VastatrixError,
    > {
        match self.instance(handle as int) {
            Err(e) => Err(e),
            Ok(fields) => Ok(
                VmModel {
                    objects: self.objects.update(
                        handle as int,
                        ObjectModel::Instance(fields.insert(name, value)),
                    ),
                    ..self
                },
            ),
        }
    }

    /// Reading the element `index` of the array behind `handle`.
    pub open spec fn array_load(self, handle: u32, index: int) -> Result<Slot, VastatrixError> {
        match self.array(handle as int) {
            Err(e) => Err(e),
            Ok((_, elements)) => if 0 <= index < elements.len() {
                Ok(elements[index])
            } else {
                Err(VastatrixError::ArrayOutOfRange)
            },
        }
    }

    /// Writing the element `index` of the array behind `handle`.
    pub open spec fn array_store(self, handle: u32, index: int, value: Slot) -> Result<
        VmModel,
        VastatrixError,
    > {
        match self.array(handle as int) {
            Err(e) => Err(e),
            Ok((of, elements)) => if 0 <= index < elements.len() {
                Ok(
                    VmModel {
                        objects: self.objects.update(
                            handle as int,
                            ObjectModel::Array(of, elements.update(index, value)),
                        ),
                        ..self
                    },
                )
            } else {
                Err(VastatrixError::ArrayOutOfRange)
            },
        }
    }
}

/// A constant that `ldc` loads.
#[derive(Debug)]
pub enum LoadedConstant {
    Int(i32),
    Text(String),
}

/// The mathematical value of a [`LoadedConstant`].
pub enum LoadedConstantModel {
    Int(int),
    Text(Seq<char>),
}

impl View for LoadedConstant {
    type V = LoadedConstantModel;

    open spec fn view(&self) -> LoadedConstantModel {
        match self {
            LoadedConstant::Int(v) => LoadedConstantModel::Int(*v as int),
            LoadedConstant::Text(text) => LoadedConstantModel::Text(text@),
        }
    }
}

/// Where a call goes: a frame of bytecode to run, or a method of the host.
#[derive(Debug)]
pub enum Frame {
    Bytecode(BytecodeFrame),
    Native(NativeMethod),
}

/// The mathematical value of a [`Frame`].
pub enum FrameTarget {
    Bytecode(FrameModel),
    Native(NativeMethod),
}

impl View for Frame {
    type V = FrameTarget;

    open spec fn view(&self) -> FrameTarget {
        match self {
            Frame::Bytecode(frame) => FrameTarget::Bytecode(frame@),
            Frame::Native(method) => FrameTarget::Native(*method),
        }
    }
}

/// How many classes a search for a method visits at most, from the class it
/// starts at upwards.
pub const SUPER_CHAIN_LIMIT: u32 = 0xffff;

impl VmModel {
    /// The heap of a machine that has loaded nothing yet.
    pub open spec fn fresh(source: Seq<(Seq<char>, Seq<u8>)>) -> VmModel {
        VmModel {
            classes: Seq::<ClassModel>::empty(),
            names: Seq::<Seq<char>>::empty(),
            objects: Seq::<ObjectModel>::empty(),
            source,
        }
    }

    /// The heap with the class `class` under the name `name`, unless the name
    /// is taken or no handle is left.
    pub open spec fn define(self, name: Seq<char>, class: ClassModel) -> VmModel {
        if name_index(self.names, name) is Some || self.classes.len() >= u32::MAX {
            self
        } else {
            self.with_class(name, class)
        }
    }

    /// The heap with the classes of `table`, first to last.
    pub open spec fn install(self, table: Seq<ClassDataModel>) -> VmModel
        decreases table.len(),
    {
        if table.len() == 0 {
            self
        } else if fits_pool(table.last()) {
            self.install(table.drop_last()).define(
                table.last().classpath,
                synthesized(table.last()),
            )
        } else {
            self.install(table.drop_last())
        }
    }

    /// Where a call of the method `name` with the descriptor `descriptor`
    /// goes in the class behind `class`, not looking at the classes above it:
    /// to the method's code where the class has it with code, and to the host
    /// where the class declares it without code and the host has a method for
    /// it.
    pub open spec fn target_in(self, class: int, name: Seq<char>, descriptor: Seq<char>) -> Option<
        FrameTarget,
    > {
        match new_frame(self.classes[class], name, descriptor) {
            Some(f) => Some(FrameTarget::Bytecode(f)),
            None => if declares_method(self.classes[class], name, descriptor) {
                match native_method(self.names[class], name, descriptor) {
                    Some(n) => Some(FrameTarget::Native(n)),
                    None => None,
                }
            } else {
                None
            },
        }
    }

    /// Where a call of the method `name` goes, searching the class behind
    /// `class` and then the classes above it, each of which is loaded where it
    /// was not yet. The search ends with `NoSuchMethod` at a class that has no
    /// class above it, and after `fuel` steps upwards.
    pub open spec fn lookup(self, class: u32, name: Seq<char>, descriptor: Seq<char>, fuel: nat)
        -> Result<(VmModel, FrameTarget), VastatrixError>
        decreases fuel,
    {
        if class >= self.classes.len() {
            Err(VastatrixError::BadHandle(class))
        } else {
            match self.target_in(class as int, name, descriptor) {
                Some(t) => Ok((self, t)),
                None => {
                    let c = self.classes[class as int];
                    if c.super_class == 0 || fuel == 0 {
                        Err(VastatrixError::NoSuchMethod)
                    } else {
                        match class_name_at(c.constant_pool, c.super_class as int) {
                            None => Err(VastatrixError::BadConstant(c.super_class)),
                            Some(above) => match self.load(above) {
                                Err(e) => Err(e),
                                Ok((vm, h)) => vm.lookup(h, name, descriptor, (fuel - 1) as nat),
                            },
                        }
                    }
                },
            }
        }
    }

    /// Where the field `name` is declared, searching the class behind `class`
    /// and then the classes above it, each of which is loaded where it was not
    /// yet: the handle of the class that declares it, and its index among the
    /// fields of that class. The search ends with `NoSuchField` at a class that
    /// has no class above it, and after `fuel` steps upwards.
    pub open spec fn lookup_field(self, class: u32, name: Seq<char>, fuel: nat) -> Result<
        (VmModel, u32, int),
        VastatrixError,
    >
        decreases fuel,
    {
        if class >= self.classes.len() {
            Err(VastatrixError::BadHandle(class))
        } else {
            let c = self.classes[class as int];
            match find_field(c, name, 0) {
                Some(i) => Ok((self, class, i)),
                None => if c.super_class == 0 || fuel == 0 {
                    Err(VastatrixError::NoSuchField)
                } else {
                    match class_name_at(c.constant_pool, c.super_class as int) {
                        None => Err(VastatrixError::BadConstant(c.super_class)),
                        Some(above) => match self.load(above) {
                            Err(e) => Err(e),
                            Ok((vm, h)) => vm.lookup_field(h, name, (fuel - 1) as nat),
                        },
                    }
                },
            }
        }
    }

    /// Resolving the field reference at the pool index `index` of the class
    /// behind `class`: the class that the reference names is loaded, and the
    /// field is searched there and above, by its name.
    pub open spec fn resolve_field(self, class: u32, index: u16) -> Result<
        (VmModel, u32, int),
        VastatrixError,
    > {
        match self.field_ref(class, index) {
            Err(e) => Err(e),
            Ok(m) => match self.load(m.class) {
                Err(e) => Err(e),
                Ok((vm, h)) => vm.lookup_field(h, m.name, SUPER_CHAIN_LIMIT as nat),
            },
        }
    }

    /// The method that the pool entry `index` of the class behind `class`
    /// refers to.
    pub open spec fn method_ref(self, class: u32, index: u16) -> Result<
        MemberRefModel,
        VastatrixError,
    > {
        if class >= self.classes.len() {
            Err(VastatrixError::BadHandle(class))
        } else {
            match method_ref_at(self.classes[class as int].constant_pool, index as int) {
                Some(m) => Ok(m),
                None => Err(VastatrixError::BadConstant(index)),
            }
        }
    }

    /// The field that the pool entry `index` of the class behind `class`
    /// refers to.
    pub open spec fn field_ref(self, class: u32, index: u16) -> Result<
        MemberRefModel,
        VastatrixError,
    > {
        if class >= self.classes.len() {
            Err(VastatrixError::BadHandle(class))
        } else {
            match field_ref_at(self.classes[class as int].constant_pool, index as int) {
                Some(m) => Ok(m),
                None => Err(VastatrixError::BadConstant(index)),
            }
        }
    }

    /// The class name that the pool entry `index` of the class behind `class`
    /// stands for.
    pub open spec fn class_ref(self, class: u32, index: u16) -> Result<Seq<char>, VastatrixError> {
        if class >= self.classes.len() {
            Err(VastatrixError::BadHandle(class))
        } else {
            match class_name_at(self.classes[class as int].constant_pool, index as int) {
                Some(name) => Ok(name),
                None => Err(VastatrixError::BadConstant(index)),
            }
        }
    }

    /// The constant that `ldc` loads from the pool entry `index` of the class
    /// behind `class`: the signed value of an `Integer`, or the text of a
    /// `String`.
    pub open spec fn constant(self, class: u32, index: u16) -> Result<
        LoadedConstantModel,
        VastatrixError,
    > {
        if class >= self.classes.len() {
            Err(VastatrixError::BadHandle(class))
        } else {
            let pool = self.classes[class as int].constant_pool;
            if index >= pool.len() {
                Err(VastatrixError::BadConstant(index))
            } else {
                match pool[index as int] {
                    PoolEntry::Integer { bytes } => Ok(LoadedConstantModel::Int(signed32(bytes))),
                    PoolEntry::String { string_index } => match pool_text(
                        pool,
                        string_index as int,
                    ) {
                        Some(text) => Ok(LoadedConstantModel::Text(text)),
                        None => Err(VastatrixError::BadConstant(string_index)),
                    },
                    _ => Err(VastatrixError::BadConstant(index)),
                }
            }
        }
    }

    /// Resolving the method reference at the pool index `index` of the class
    /// behind `class`: the class that the reference names is loaded, and the
    /// method is searched there and above. The result is where the call goes,
    /// and the method's descriptor.
    pub open spec fn resolve_method(self, class: u32, index: u16) -> Result<
        (VmModel, FrameTarget, DescriptorModel),
        VastatrixError,
    > {
        match self.method_ref(class, index) {
            Err(e) => Err(e),
            Ok(m) => match descriptor_of(m.descriptor) {
                None => Err(VastatrixError::BadDescriptor),
                Some(d) => match self.load(m.class) {
                    Err(e) => Err(e),
                    Ok((vm, h)) => match vm.lookup(
                        h,
                        m.name,
                        m.descriptor,
                        SUPER_CHAIN_LIMIT as nat,
                    ) {
                        Err(e) => Err(e),
                        Ok((after, target)) => Ok((after, target, d)),
                    },
                },
            },
        }
    }
}

/// A class on the heap, with the name it was loaded under.
#[derive(Debug)]
pub struct LoadedClass {
    pub name: String,
    pub class: ClassFile,
}

/// The machine's heap. Nothing is ever taken off it: a handle, once handed
/// out, names the same class or object for good.
#[derive(Debug)]
pub struct Vastatrix {
    classes: Vec<LoadedClass>,
    objects: Vec<VTXObject>,
    source: Classpath,
}

/// The classes of `loaded`, by handle.
pub open spec fn classes_of(loaded: Seq<LoadedClass>) -> Seq<ClassModel> {
    Seq::new(loaded.len(), |i: int| loaded[i].class@)
}

/// The names of `loaded`, by handle.
pub open spec fn names_of(loaded: Seq<LoadedClass>) -> Seq<Seq<char>> {
    Seq::new(loaded.len(), |i: int| loaded[i].name@)
}

impl View for Vastatrix {
    type V = VmModel;

    closed spec fn view(&self) -> VmModel {
        VmModel {
            classes: classes_of(self.classes@),
            names: names_of(self.classes@),
            objects: self.objects.deep_view(),
            source: self.source@,
        }
    }
}

/// The index of `name` among the names of `loaded`.
#[verifier::loop_isolation(false)]
fn find_name(loaded: &Vec<LoadedClass>, name: &str) -> (r: Option<usize>)
    ensures
        match name_index(names_of(loaded@), name@) {
            Some(i) => r == Some(i as usize),
            None => r is None,
        },
{
    let ghost all = names_of(loaded@);
    let mut i: usize = 0;
    proof {
        lemma_name_index(all, name@);
    }
    while i < loaded.len()
        invariant
            i <= loaded.len(),
            forall|k: int| 0 <= k < i ==> all[k] != name@,
        decreases loaded.len() - i,
    {
        assert(all[i as int] == loaded[i as int].name@);
        if text_is(loaded[i].name.as_str(), name) {
            return Some(i);
        }
        i = i + 1;
    }
    None
}

impl Vastatrix {
    /// What holds of every heap, at every time.
    #[verifier::type_invariant]
    pub open spec fn inv(&self) -> bool {
        self@.wf()
    }

    /// A heap without classes and objects, over the class files `source`.
    fn empty(source: Classpath) -> (r: Self)
        ensures
            r@ == VmModel::fresh(source@),
    {
        let r = Vastatrix { classes: Vec::new(), objects: Vec::new(), source };
        assert(classes_of(r.classes@) == Seq::<ClassModel>::empty());
        assert(names_of(r.classes@) == Seq::<Seq<char>>::empty());
        assert(r.objects.deep_view() == Seq::<ObjectModel>::empty());
        r
    }

    /// The heap of a machine that starts: no objects, and of classes those
    /// that the machine brings along, in the order of the table. Other classes
    /// are loaded from `source` when they are first asked for.
    pub fn new(source: Classpath) -> (r: Self)
        ensures
            r@ == VmModel::fresh(source@).install(builtin_table()),
            r@.wf(),
    {
        let mut r = Self::empty(source);
        let table = expose_classes();
        let ghost all = table.deep_view();
        let ghost start = r@;
        let mut i: usize = 0;
        assert(all.take(0) == Seq::<ClassDataModel>::empty());
        while i < table.len()
            invariant
                i <= table.len(),
                all == table.deep_view(),
                r@ == start.install(all.take(i as int)),
            decreases table.len() - i,
        {
            assert(all.take(i + 1).drop_last() == all.take(i as int));
            assert(all.take(i + 1).last() == table[i as int]@);
            let data = &table[i];
            if data.fields.len() <= 0x8000 && data.methods.len() <= 0x8000 && 5 + 2 * (
            data.fields.len() + data.methods.len()) <= 0xffff {
                let class = synthesize(data);
                let ghost before = r@;
                proof {
                    lemma_name_index(before.names, data.classpath@);
                }
                let _ = r.define_class(data.classpath.clone(), class);
            }
            i = i + 1;
        }
        assert(all.take(all.len() as int) == all);
        proof {
            use_type_invariant(&r);
        }
        r
    }

    /// Takes in a class under the name `name` and the next free handle, which
    /// the class is told. A name that is taken already is refused.
    pub fn define_class(&mut self, name: String, class: ClassFile) -> (r: Result<
        u32,
        VastatrixError,
    >)
        ensures
            final(self)@.wf(),
            match r {
                Ok(h) => name_index(old(self)@.names, name@) is None && old(self)@.classes.len()
                    < u32::MAX && h == old(self)@.classes.len() && final(self)@ == old(
                    self,
                )@.with_class(name@, class@),
                Err(e) => final(self)@ == old(self)@ && (if name_index(old(self)@.names, name@)
                    is Some {
                    e == VastatrixError::BadHandle(name_index(old(self)@.names, name@)->0 as u32)
                } else {
                    old(self)@.classes.len() >= u32::MAX && e == VastatrixError::OutOfHandles
                }),
            },
    {
        proof {
            use_type_invariant(&*self);
            lemma_name_index(self@.names, name@);
        }
        match find_name(&self.classes, name.as_str()) {
            Some(i) => {
                return Err(VastatrixError::BadHandle(i as u32));
            },
            None => {},
        }
        if self.classes.len() >= 0xffff_ffff {
            return Err(VastatrixError::OutOfHandles);
        }
        let ghost before = self@;
        let handle = self.classes.len() as u32;
        let mut class = class;
        class.set_handle(handle);
        let ghost cm = class@;
        let ghost nm = name@;
        let mut classes: Vec<LoadedClass> = Vec::new();
        core::mem::swap(&mut self.classes, &mut classes);
        classes.push(LoadedClass { name, class });
        proof {
            assert(classes_of(classes@) == before.classes.push(cm));
            assert(names_of(classes@) == before.names.push(nm));
        }
        core::mem::swap(&mut self.classes, &mut classes);
        Ok(handle)
    }

    /// The handle of the class `classpath`, which is loaded first where it
    /// was not yet.
    pub fn load_or_get_class_handle(&mut self, classpath: String) -> (r: Result<
        u32,
        VastatrixError,
    >)
        ensures
            final(self)@.wf(),
            match old(self)@.load(classpath@) {
                Ok((vm, h)) => r == Ok::<u32, VastatrixError>(h) && final(self)@ == vm,
                Err(e) => r == Err::<u32, VastatrixError>(e) && final(self)@ == old(self)@,
            },
    {
        proof {
            use_type_invariant(&*self);
            lemma_name_index(self@.names, classpath@);
        }
        match find_name(&self.classes, classpath.as_str()) {
            Some(i) => {
                return Ok(i as u32);
            },
            None => {},
        }
        let at = match self.source.find(classpath.as_str()) {
            Some(at) => at,
            None => {
                return Err(VastatrixError::ClasspathIncomplete);
            },
        };
        assert(self.source@[at as int] == self.source.root[at as int]@);
        let bytes = self.source.root[at].bytes.clone();
        let class = match ClassFile::new(buf_from_vec(bytes)) {
            Ok(class) => class,
            Err(e) => {
                return Err(VastatrixError::Class(e, at));
            },
        };
        self.define_class(classpath, class)
    }

    /// The name of the class file at the index `index` of the class source.
    pub fn source_name(&self, index: usize) -> (r: Option<&String>)
        ensures
            match r {
                Some(name) => index < self@.source.len() && name@ == self@.source[index as int].0,
                None => index >= self@.source.len(),
            },
    {
        if index < self.source.root.len() {
            assert(self.source@[index as int] == self.source.root[index as int]@);
            Some(&self.source.root[index].name)
        } else {
            None
        }
    }

    /// The class behind the handle `handle`.
    pub fn get_class(&self, handle: u32) -> (r: Result<&ClassFile, VastatrixError>)
        ensures
            self@.wf(),
            match r {
                Ok(class) => handle < self@.classes.len() && class@ == self@.classes[handle as int],
                Err(e) => handle >= self@.classes.len() && e == VastatrixError::BadHandle(handle),
            },
    {
        proof {
            use_type_invariant(self);
        }
        if (handle as usize) < self.classes.len() {
            Ok(&self.classes[handle as usize].class)
        } else {
            Err(VastatrixError::BadHandle(handle))
        }
    }

    /// The name of the class behind the handle `handle`.
    pub fn class_name(&self, handle: u32) -> (r: Result<&String, VastatrixError>)
        ensures
            self@.wf(),
            match r {
                Ok(name) => handle < self@.names.len() && name@ == self@.names[handle as int],
                Err(e) => handle >= self@.names.len() && e == VastatrixError::BadHandle(handle),
            },
    {
        proof {
            use_type_invariant(self);
        }
        if (handle as usize) < self.classes.len() {
            Ok(&self.classes[handle as usize].name)
        } else {
            Err(VastatrixError::BadHandle(handle))
        }
    }

    /// Where a call of the method `name` with the descriptor `descriptor`
    /// goes, searching the class behind `class` and the classes above it.
    #[verifier::loop_isolation(false)]
    pub fn lookup(&mut self, class: u32, name: &str, descriptor: &str) -> (r: Result<
        Frame,
        VastatrixError,
    >)
        ensures
            final(self)@.wf(),
            match old(self)@.lookup(class, name@, descriptor@, SUPER_CHAIN_LIMIT as nat) {
                Ok((vm, target)) => r matches Ok(f) && f@ == target && final(self)@ == vm,
                Err(e) => r matches Err(x) && x == e,
            },
    {
        proof {
            use_type_invariant(&*self);
        }
        let mut current = class;
        let mut fuel: u32 = SUPER_CHAIN_LIMIT;
        loop
            invariant
                self@.wf(),
                old(self)@.lookup(class, name@, descriptor@, SUPER_CHAIN_LIMIT as nat)
                    == self@.lookup(current, name@, descriptor@, fuel as nat),
            decreases fuel,
        {
            let above = {
                let c = self.get_class(current)?;
                match c.create_frame(name.to_owned(), descriptor.to_owned()) {
                    Some(frame) => {
                        return Ok(Frame::Bytecode(frame));
                    },
                    None => {},
                }
                if c.declares(name, descriptor) {
                    let own = self.class_name(current)?;
                    match native_method_of(own.as_str(), name, descriptor) {
                        Some(n) => {
                            return Ok(Frame::Native(n));
                        },
                        None => {},
                    }
                }
                if c.super_class == 0 || fuel == 0 {
                    return Err(VastatrixError::NoSuchMethod);
                }
                match class_name_of(&c.constant_pool, c.super_class) {
                    Some(above) => above.clone(),
                    None => {
                        return Err(VastatrixError::BadConstant(c.super_class));
                    },
                }
            };
            current = self.load_or_get_class_handle(above)?;
            fuel = fuel - 1;
        }
    }

    /// Where the field `name` is declared, searching the class behind `class`
    /// and the classes above it: the handle of the class that declares it, and
    /// its index among the fields of that class.
    #[verifier::loop_isolation(false)]
    pub fn lookup_field(&mut self, class: u32, name: &str) -> (r: Result<
        (u32, usize),
        VastatrixError,
    >)
        ensures
            final(self)@.wf(),
            match old(self)@.lookup_field(class, name@, SUPER_CHAIN_LIMIT as nat) {
                Ok((vm, owner, at)) => r == Ok::<(u32, usize), VastatrixError>(
                    (owner, at as usize),
                ) && final(self)@ == vm,
                Err(e) => r matches Err(x) && x == e,
            },
    {
        proof {
            use_type_invariant(&*self);
        }
        let mut current = class;
        let mut fuel: u32 = SUPER_CHAIN_LIMIT;
        loop
            invariant
                self@.wf(),
                old(self)@.lookup_field(class, name@, SUPER_CHAIN_LIMIT as nat)
                    == self@.lookup_field(current, name@, fuel as nat),
            decreases fuel,
        {
            let above = {
                let c = self.get_class(current)?;
                match c.field_index(name) {
                    Some(at) => {
                        return Ok((current, at));
                    },
                    None => {},
                }
                if c.super_class == 0 || fuel == 0 {
                    return Err(VastatrixError::NoSuchField);
                }
                match class_name_of(&c.constant_pool, c.super_class) {
                    Some(above) => above.clone(),
                    None => {
                        return Err(VastatrixError::BadConstant(c.super_class));
                    },
                }
            };
            current = self.load_or_get_class_handle(above)?;
            fuel = fuel - 1;
        }
    }

    /// Resolves the field reference at the pool index `index` of the class
    /// behind `class`.
    pub fn resolve_field(&mut self, class: u32, index: u16) -> (r: Result<
        (u32, usize),
        VastatrixError,
    >)
        ensures
            final(self)@.wf(),
            match old(self)@.resolve_field(class, index) {
                Ok((vm, owner, at)) => r == Ok::<(u32, usize), VastatrixError>(
                    (owner, at as usize),
                ) && final(self)@ == vm,
                Err(e) => r matches Err(x) && x == e,
            },
    {
        proof {
            use_type_invariant(&*self);
        }
        let m = self.field_ref(class, index)?;
        let h = self.load_or_get_class_handle(m.class)?;
        self.lookup_field(h, m.name.as_str())
    }

    /// The method that the pool entry `index` of the class behind `class`
    /// refers to.
    pub fn method_ref(&self, class: u32, index: u16) -> (r: Result<MemberRef, VastatrixError>)
        ensures
            self@.wf(),
            match self@.method_ref(class, index) {
                Ok(m) => r matches Ok(out) && out@ == m,
                Err(e) => r matches Err(x) && x == e,
            },
    {
        let c = self.get_class(class)?;
        match method_ref_of(&c.constant_pool, index) {
            Some(m) => Ok(m),
            None => Err(VastatrixError::BadConstant(index)),
        }
    }

    /// The field that the pool entry `index` of the class behind `class`
    /// refers to.
    pub fn field_ref(&self, class: u32, index: u16) -> (r: Result<MemberRef, VastatrixError>)
        ensures
            self@.wf(),
            match self@.field_ref(class, index) {
                Ok(m) => r matches Ok(out) && out@ == m,
                Err(e) => r matches Err(x) && x == e,
            },
    {
        let c = self.get_class(class)?;
        match field_ref_of(&c.constant_pool, index) {
            Some(m) => Ok(m),
            None => Err(VastatrixError::BadConstant(index)),
        }
    }

    /// The class name that the pool entry `index` of the class behind `class`
    /// stands for.
    pub fn class_ref(&self, class: u32, index: u16) -> (r: Result<String, VastatrixError>)
        ensures
            self@.wf(),
            match self@.class_ref(class, index) {
                Ok(name) => r matches Ok(out) && out@ == name,
                Err(e) => r matches Err(x) && x == e,
            },
    {
        let c = self.get_class(class)?;
        match class_name_of(&c.constant_pool, index) {
            Some(name) => Ok(name.clone()),
            None => Err(VastatrixError::BadConstant(index)),
        }
    }

    /// The constant that `ldc` loads from the pool entry `index` of the class
    /// behind `class`.
    pub fn constant(&self, class: u32, index: u16) -> (r: Result<LoadedConstant, VastatrixError>)
        ensures
            self@.wf(),
            match self@.constant(class, index) {
                Ok(c) => r matches Ok(out) && out@ == c,
                Err(e) => r matches Err(x) && x == e,
            },
    {
        let c = self.get_class(class)?;
        if index as usize >= c.constant_pool.len() {
            return Err(VastatrixError::BadConstant(index));
        }
        assert(c.constant_pool.deep_view()[index as int] == c.constant_pool[index as int]@);
        match &c.constant_pool[index as usize] {
            ConstantsPoolInfo::Integer { bytes } => Ok(
                LoadedConstant::Int(signed32_of(*bytes) as i32),
            ),
            ConstantsPoolInfo::String { string_index } => match text_at(
                &c.constant_pool,
                *string_index,
            ) {
                Some(text) => Ok(LoadedConstant::Text(text.clone())),
                None => Err(VastatrixError::BadConstant(*string_index)),
            },
            _ => Err(VastatrixError::BadConstant(index)),
        }
    }

    /// Resolves the method reference at the pool index `index` of the class
    /// behind `class`.
    pub fn resolve_method(&mut self, class: u32, index: u16) -> (r: Result<
        (Frame, Descriptor),
        VastatrixError,
    >)
        ensures
            final(self)@.wf(),
            match old(self)@.resolve_method(class, index) {
                Ok((vm, target, d)) => r matches Ok(out) && out.0@ == target && out.1@ == d
                    && final(self)@ == vm,
                Err(e) => r matches Err(x) && x == e,
            },
    {
        proof {
            use_type_invariant(&*self);
        }
        let m = self.method_ref(class, index)?;
        let d = match Descriptor::parse(m.descriptor.as_str()) {
            Some(d) => d,
            None => {
                return Err(VastatrixError::BadDescriptor);
            },
        };
        let h = self.load_or_get_class_handle(m.class)?;
        let target = self.lookup(h, m.name.as_str(), m.descriptor.as_str())?;
        Ok((target, d))
    }

    /// Adds `object` to the heap under the next free handle.
    fn allocate(&mut self, object: VTXObject) -> (r: Result<u32, VastatrixError>)
        ensures
            final(self)@.wf(),
            match r {
                Ok(h) => old(self)@.objects.len() < u32::MAX && h == old(self)@.objects.len()
                    && final(self)@ == old(self)@.with_object(object@),
                Err(e) => old(self)@.objects.len() >= u32::MAX && e == VastatrixError::OutOfHandles
                    && final(self)@ == old(self)@,
            },
    {
        proof {
            use_type_invariant(&*self);
        }
        if self.objects.len() >= 0xffff_ffff {
            return Err(VastatrixError::OutOfHandles);
        }
        let handle = self.objects.len() as u32;
        let ghost before = self.objects.deep_view();
        let ghost model = object@;
        let mut objects: Vec<VTXObject> = Vec::new();
        core::mem::swap(&mut self.objects, &mut objects);
        objects.push(object);
        assert(objects.deep_view() == before.push(model));
        core::mem::swap(&mut self.objects, &mut objects);
        Ok(handle)
    }

    /// Makes an instance of the class behind `class`, with each field that the
    /// class declares at its first value, and gives its handle. The handle is
    /// one that no object had before.
    pub fn prepare_instance(&mut self, class: u32) -> (r: Result<u32, VastatrixError>)
        ensures
            final(self)@.wf(),
            match old(self)@.prepare_instance(class) {
                Ok((vm, h)) => r == Ok::<u32, VastatrixError>(h) && final(self)@ == vm,
                Err(e) => r == Err::<u32, VastatrixError>(e) && final(self)@ == old(self)@,
            },
            r matches Ok(h) ==> h == old(self)@.objects.len(),
    {
        proof {
            use_type_invariant(&*self);
        }
        if class as usize >= self.classes.len() {
            return Err(VastatrixError::BadHandle(class));
        }
        let instance = instantiate(&self.classes[class as usize].class);
        self.allocate(VTXObject::Instance(instance))
    }

    /// Makes an array of the slots `array`, of the element kind `of`, and
    /// gives its handle. The handle is one that no object had before.
    pub fn create_array(&mut self, array: Vec<Argument>, of: MethodType) -> (r: Result<
        u32,
        VastatrixError,
    >)
        ensures
            final(self)@.wf(),
            match old(self)@.create_array(array.deep_view(), of@) {
                Ok((vm, h)) => r == Ok::<u32, VastatrixError>(h) && final(self)@ == vm,
                Err(e) => r == Err::<u32, VastatrixError>(e) && final(self)@ == old(self)@,
            },
            r matches Ok(h) ==> h == old(self)@.objects.len(),
    {
        self.allocate(VTXObject::Array((of, array)))
    }

    /// The instance behind the handle `index`.
    pub fn get_instance(&self, index: usize) -> (r: Result<&Instance, VastatrixError>)
        ensures
            self@.wf(),
            match self@.instance(index as int) {
                Ok(fields) => r matches Ok(out) && out@ == fields,
                Err(e) => r matches Err(x) && x == e,
            },
    {
        proof {
            use_type_invariant(self);
        }
        if index < self.objects.len() {
            assert(self.objects.deep_view()[index as int] == self.objects[index as int]@);
            match &self.objects[index] {
                VTXObject::Instance(instance) => Ok(instance),
                _ => Err(VastatrixError::BadHandle(index as u32)),
            }
        } else {
            Err(VastatrixError::BadHandle(index as u32))
        }
    }

    /// The array behind the handle `index`: its element kind and its slots.
    pub fn get_array(&self, index: usize) -> (r: Result<&(MethodType, Vec<Argument>), VastatrixError>)
        ensures
            self@.wf(),
            match self@.array(index as int) {
                Ok((of, elements)) => r matches Ok(out) && out.0@ == of && out.1.deep_view()
                    == elements,
                Err(e) => r matches Err(x) && x == e,
            },
    {
        proof {
            use_type_invariant(self);
        }
        if index < self.objects.len() {
            assert(self.objects.deep_view()[index as int] == self.objects[index as int]@);
            match &self.objects[index] {
                VTXObject::Array(array) => Ok(array),
                _ => Err(VastatrixError::BadHandle(index as u32)),
            }
        } else {
            Err(VastatrixError::BadHandle(index as u32))
        }
    }

    /// Reads the field `name` of the instance behind `handle`.
    pub fn get_field(&self, handle: u32, name: &str) -> (r: Result<Argument, VastatrixError>)
        ensures
            self@.wf(),
            match self@.get_field(handle, name@) {
                Ok(slot) => r matches Ok(out) && out@ == slot,
                Err(e) => r matches Err(x) && x == e,
            },
    {
        let instance = self.get_instance(handle as usize)?;
        match instance.get(name) {
            Some(slot) => Ok(slot.clone()),
            None => Err(VastatrixError::NoSuchField),
        }
    }

    /// Writes the field `name` of the instance behind `handle`.
    pub fn put_field(&mut self, handle: u32, name: String, value: Argument) -> (r: Result<
        (),
        VastatrixError,
    >)
        ensures
            final(self)@.wf(),
            match old(self)@.put_field(handle, name@, value@) {
                Ok(vm) => r is Ok && final(self)@ == vm,
                Err(e) => r == Err::<(), VastatrixError>(e) && final(self)@ == old(self)@,
            },
    {
        proof {
            use_type_invariant(&*self);
        }
        let ghost before = self.objects.deep_view();
        let index = handle as usize;
        if index >= self.objects.len() {
            return Err(VastatrixError::BadHandle(handle));
        }
        assert(before[index as int] == self.objects[index as int]@);
        let mut objects: Vec<VTXObject> = Vec::new();
        core::mem::swap(&mut self.objects, &mut objects);
        let ghost taken = objects;
        let r = match &mut objects[index] {
            VTXObject::Instance(instance) => {
                instance.insert(name, value);
                Ok(())
            },
            _ => Err(VastatrixError::BadHandle(handle)),
        };
        proof {
            if r is Ok {
                assert(objects.deep_view() == before.update(index as int, objects[index as int]@));
            } else {
                assert(objects.deep_view() == before);
            }
        }
        core::mem::swap(&mut self.objects, &mut objects);
        r
    }

    /// Reads the element `index` of the array behind `handle`.
    pub fn array_load(&self, handle: u32, index: usize) -> (r: Result<Argument, VastatrixError>)
        ensures
            self@.wf(),
            match self@.array_load(handle, index as int) {
                Ok(slot) => r matches Ok(out) && out@ == slot,
                Err(e) => r matches Err(x) && x == e,
            },
    {
        let array = self.get_array(handle as usize)?;
        if index < array.1.len() {
            assert(array.1.deep_view()[index as int] == array.1[index as int]@);
            Ok(array.1[index].clone())
        } else {
            Err(VastatrixError::ArrayOutOfRange)
        }
    }

    /// Writes the element `index` of the array behind `handle`.
    pub fn array_store(&mut self, handle: u32, index: usize, value: Argument) -> (r: Result<
        (),
        VastatrixError,
    >)
        ensures
            final(self)@.wf(),
            match old(self)@.array_store(handle, index as int, value@) {
                Ok(vm) => r is Ok && final(self)@ == vm,
                Err(e) => r == Err::<(), VastatrixError>(e) && final(self)@ == old(self)@,
            },
    {
        proof {
            use_type_invariant(&*self);
        }
        let ghost before = self.objects.deep_view();
        let ghost slot = value@;
        let at = handle as usize;
        if at >= self.objects.len() {
            return Err(VastatrixError::BadHandle(handle));
        }
        assert(before[at as int] == self.objects[at as int]@);
        let mut objects: Vec<VTXObject> = Vec::new();
        core::mem::swap(&mut self.objects, &mut objects);
        let r = match &mut objects[at] {
            VTXObject::Array(array) => {
                if index < array.1.len() {
                    let ghost elements = array.1.deep_view();
                    array.1.set(index, value);
                    assert(array.1.deep_view() == elements.update(index as int, slot));
                    Ok(())
                } else {
                    Err(VastatrixError::ArrayOutOfRange)
                }
            },
            _ => Err(VastatrixError::BadHandle(handle)),
        };
        proof {
            if r is Ok {
                assert(objects.deep_view() == before.update(at as int, objects[at as int]@));
            } else {
                assert(objects.deep_view() == before);
            }
        }
        core::mem::swap(&mut self.objects, &mut objects);
        r
    }
}

impl VmModel {
    /// Whether this heap is `earlier` after some steps: it holds every class
    /// of `earlier` unchanged under its handle, and every object handle of
    /// `earlier` still names an object of the same sort.
    pub open spec fn extends(self, earlier: VmModel) -> bool {
        &&& earlier.classes.len() <= self.classes.len()
        &&& earlier.names.len() <= self.names.len()
        &&& earlier.objects.len() <= self.objects.len()
        &&& forall|i: int|
            0 <= i < earlier.classes.len() ==> self.classes[i] == earlier.classes[i]
        &&& forall|i: int| 0 <= i < earlier.names.len() ==> self.names[i] == earlier.names[i]
        &&& forall|i: int|
            0 <= i < earlier.objects.len() ==> (self.objects[i] is Instance
                <==> earlier.objects[i] is Instance)
    }

    /// Whether `after` is this heap with one object more, made by
    /// `prepare_instance` or by `create_array`, and `handle` the handle that
    /// was given for it.
    pub open spec fn allocated(self, after: VmModel, handle: u32) -> bool {
        ||| exists|class: u32| self.prepare_instance(class) == Ok::<_, VastatrixError>((after, handle))
        ||| exists|elements: Seq<Slot>, of: Kind| #[trigger]
            self.create_array(elements, of) == Ok::<_, VastatrixError>((after, handle))
    }
}

/// Loading a class gives a heap in order that extends the one before, and the
/// handle of a class of that heap, which goes by the name that was asked for.
pub proof fn lemma_load_valid(vm: VmModel, name: Seq<char>)
    requires
        vm.wf(),
    ensures
        vm.load(name) matches Ok((after, h)) ==> after.wf() && after.extends(vm) && h
            < after.classes.len() && after.names[h as int] == name,
{
    lemma_name_index(vm.names, name);
}

/// Every step of the heap by itself gives a heap in order that extends the
/// one before, so that the handles that were given out stay valid: making an
/// object and writing to one.
pub proof fn lemma_steps_extend(
    vm: VmModel,
    name: Seq<char>,
    class: u32,
    elements: Seq<Slot>,
    of: Kind,
    handle: u32,
    index: int,
    value: Slot,
)
    requires
        vm.wf(),
    ensures
        vm.extends(vm),
        vm.prepare_instance(class) matches Ok((after, _)) ==> after.wf() && after.extends(vm),
        vm.create_array(elements, of) matches Ok((after, _)) ==> after.wf() && after.extends(vm),
        vm.put_field(handle, name, value) matches Ok(after) ==> after.wf() && after.extends(vm),
        vm.array_store(handle, index, value) matches Ok(after) ==> after.wf() && after.extends(
            vm,
        ),
{
}

/// Searching a method gives a heap in order that extends the one before.
pub proof fn lemma_lookup_extends(
    vm: VmModel,
    class: u32,
    name: Seq<char>,
    descriptor: Seq<char>,
    fuel: nat,
)
    requires
        vm.wf(),
    ensures
        vm.lookup(class, name, descriptor, fuel) matches Ok((after, _)) ==> after.wf()
            && after.extends(vm),
    decreases fuel,
{
    if class < vm.classes.len() && vm.target_in(class as int, name, descriptor) is None {
        let c = vm.classes[class as int];
        if c.super_class != 0 && fuel > 0 {
            match class_name_at(c.constant_pool, c.super_class as int) {
                Some(above) => {
                    lemma_load_valid(vm, above);
                    match vm.load(above) {
                        Ok((next, h)) => {
                            lemma_lookup_extends(next, h, name, descriptor, (fuel - 1) as nat);
                        },
                        Err(_) => {},
                    }
                },
                None => {},
            }
        }
    }
}

/// Searching a field gives a heap in order that extends the one before.
pub proof fn lemma_lookup_field_extends(vm: VmModel, class: u32, name: Seq<char>, fuel: nat)
    requires
        vm.wf(),
    ensures
        vm.lookup_field(class, name, fuel) matches Ok((after, _, _)) ==> after.wf()
            && after.extends(vm),
    decreases fuel,
{
    if class < vm.classes.len() && find_field(vm.classes[class as int], name, 0) is None {
        let c = vm.classes[class as int];
        if c.super_class != 0 && fuel > 0 {
            match class_name_at(c.constant_pool, c.super_class as int) {
                Some(above) => {
                    lemma_load_valid(vm, above);
                    match vm.load(above) {
                        Ok((next, h)) => {
                            lemma_lookup_field_extends(next, h, name, (fuel - 1) as nat);
                        },
                        Err(_) => {},
                    }
                },
                None => {},
            }
        }
    }
}

/// Resolving a method or a field gives a heap in order that extends the one
/// before.
pub proof fn lemma_resolution_extends(vm: VmModel, class: u32, index: u16)
    requires
        vm.wf(),
    ensures
        vm.resolve_method(class, index) matches Ok((after, _, _)) ==> after.wf() && after.extends(
            vm,
        ),
        vm.resolve_field(class, index) matches Ok((after, _, _)) ==> after.wf() && after.extends(
            vm,
        ),
{
    match vm.method_ref(class, index) {
        Ok(m) => {
            lemma_load_valid(vm, m.class);
            match vm.load(m.class) {
                Ok((next, h)) => {
                    lemma_lookup_extends(next, h, m.name, m.descriptor, SUPER_CHAIN_LIMIT as nat);
                },
                Err(_) => {},
            }
        },
        Err(_) => {},
    }
    match vm.field_ref(class, index) {
        Ok(m) => {
            lemma_load_valid(vm, m.class);
            match vm.load(m.class) {
                Ok((next, h)) => {
                    lemma_lookup_field_extends(next, h, m.name, SUPER_CHAIN_LIMIT as nat);
                },
                Err(_) => {},
            }
        },
        Err(_) => {},
    }
}

/// `extends` is transitive.
pub proof fn lemma_extends_transitive(a: VmModel, b: VmModel, c: VmModel)
    requires
        b.extends(a),
        c.extends(b),
    ensures
        c.extends(a),
{
}

/// No object handle is given out twice: the handle of an object differs from
/// the handle of every object that the heap makes later, whichever of
/// `prepare_instance` and `create_array` made either.
pub proof fn lemma_handles_distinct(
    first: VmModel,
    after_first: VmModel,
    first_handle: u32,
    second: VmModel,
    after_second: VmModel,
    second_handle: u32,
)
    requires
        first.allocated(after_first, first_handle),
        second.extends(after_first),
        second.allocated(after_second, second_handle),
    ensures
        first_handle < second_handle,
        after_second.extends(first),
{
}

} // verus!
