//! The attributes of a class file, and their decoder.
//!
//! An attribute starts with the pool index of its name and the length of its
//! payload. The decoder is handed the payload alone, so it cannot read past the
//! declared end, and what the payload holds behind the last item is ignored.

use crate::buffer::buf_content;
use crate::buffer::buf_remaining;
use crate::buffer::text_is;
use crate::class::classfile::read_buffer;
use crate::class::classfile::read_bytes;
use crate::class::classfile::read_u16;
use crate::class::classfile::read_u16s;
use crate::class::classfile::read_u32;
use crate::class::classfile::read_u8;
use crate::class::classfile::take_bytes;
use crate::class::classfile::take_u16;
use crate::class::classfile::take_u16s;
use crate::class::classfile::take_u32;
use crate::class::classfile::take_u8;
use crate::class::classfile::ClassError;
use crate::class::classfile::Failure;
use crate::class::definition::ConstantsPoolInfo;
use crate::class::definition::PoolEntry;
use bytes::Bytes;
use vstd::prelude::*;

verus! {

/// What every attribute starts with.
#[derive(Debug, Clone, Copy, PartialEq, Eq, Structural)]
pub struct AttributeCommon {
    pub attribute_name_index: u16,
    pub attribute_length: u32,
}

/// Where an attribute stands.
#[derive(Debug, Clone, Copy, PartialEq, Eq, Structural)]
pub enum AttributeLocation {
    ClassFile,
    FieldInfo,
    MethodInfo,
    RecordComponentInfo,
    Code,
}

/// One entry of the exception table of a `Code` attribute: the range of the
/// code that a handler covers, where the handler starts, and the pool index of
/// the class that it catches.
#[derive(Debug, Clone, Copy, PartialEq, Eq, Structural)]
pub struct ExceptionTableEntry {
    pub start_pc: u16,
    pub end_pc: u16,
    pub handler_pc: u16,
    pub catch_type: u16,
}

/// One entry of an `InnerClasses` attribute.
#[derive(Debug, Clone, Copy, PartialEq, Eq, Structural)]
pub struct InnerClassesEntry {
    pub inner_class_info_index: u16,
    pub outer_class_info_index: u16,
    pub inner_name_index: u16,
    pub inner_class_access_flags: u16,
}

/// One entry of a `LineNumberTable` attribute: where in the code a line of
/// the source starts.
#[derive(Debug, Clone, Copy, PartialEq, Eq, Structural)]
pub struct LineNumberTableEntry {
    pub start_pc: u16,
    pub line_number: u16,
}

/// One entry of a `LocalVariableTable` attribute: the range of the code in
/// which a local variable has a value, its name, its descriptor and its index.
#[derive(Debug, Clone, Copy, PartialEq, Eq, Structural)]
pub struct LocalVariableTableEntry {
    pub start_pc: u16,
    pub length: u16,
    pub name_index: u16,
    pub descriptor_index: u16,
    pub index: u16,
}

/// One entry of a `LocalVariableTypeTable` attribute: as in a
/// `LocalVariableTable`, with a signature in the place of the descriptor.
#[derive(Debug, Clone, Copy, PartialEq, Eq, Structural)]
pub struct LocalVariableTypeTableEntry {
    pub start_pc: u16,
    pub length: u16,
    pub name_index: u16,
    pub signature_index: u16,
    pub index: u16,
}

/// One entry of a `BootstrapMethods` attribute: the pool index of a method
/// handle, and the pool indices of its arguments.
#[derive(Debug)]
pub struct BootstrapMethod {
    pub bootstrap_method_ref: u16,
    pub num_bootstrap_arguments: u16,
    pub bootstrap_arguments: Vec<u16>,
}

/// The mathematical value of a [`BootstrapMethod`].
pub struct BootstrapMethodModel {
    pub bootstrap_method_ref: u16,
    pub num_bootstrap_arguments: u16,
    pub bootstrap_arguments: Seq<u16>,
}

impl View for BootstrapMethod {
    type V = BootstrapMethodModel;

    open spec fn view(&self) -> BootstrapMethodModel {
        BootstrapMethodModel {
            bootstrap_method_ref: self.bootstrap_method_ref,
            num_bootstrap_arguments: self.num_bootstrap_arguments,
            bootstrap_arguments: self.bootstrap_arguments@,
        }
    }
}

impl DeepView for BootstrapMethod {
    type V = BootstrapMethodModel;

    open spec fn deep_view(&self) -> BootstrapMethodModel {
        self@
    }
}

/// The type of one local variable or stack entry in a stack map frame.
#[derive(Debug, Clone, Copy, PartialEq, Eq, Structural)]
pub enum VerificationType {
    Top,
    Integer,
    Float,
    Double,
    Long,
    Null,
    UninitializedThis,
    Object { cpool_index: u16 },
    Uninitialized { offset: u16 },
}

/// One frame of a stack map table.
#[derive(Debug)]
#[allow(inconsistent_fields)]
pub enum StackMapFrame {
    Same { frame_type: u8 },
    SameLocals1StackItem { frame_type: u8, stack: VerificationType },
    SameLocals1StackItemExtended { offset_delta: u16, stack: VerificationType },
    Chop { frame_type: u8, offset_delta: u16 },
    SameExtended { offset_delta: u16 },
    Append { offset_delta: u16, locals: Vec<VerificationType> },
    Full { offset_delta: u16, locals: Vec<VerificationType>, stack: Vec<VerificationType> },
}

/// The mathematical value of a [`StackMapFrame`].
#[allow(inconsistent_fields)]
pub enum StackMapFrameModel {
    Same { frame_type: u8 },
    SameLocals1StackItem { frame_type: u8, stack: VerificationType },
    SameLocals1StackItemExtended { offset_delta: u16, stack: VerificationType },
    Chop { frame_type: u8, offset_delta: u16 },
    SameExtended { offset_delta: u16 },
    Append { offset_delta: u16, locals: Seq<VerificationType> },
    Full { offset_delta: u16, locals: Seq<VerificationType>, stack: Seq<VerificationType> },
}

impl View for StackMapFrame {
    type V = StackMapFrameModel;

    open spec fn view(&self) -> StackMapFrameModel {
        match self {
            StackMapFrame::Same { frame_type } => StackMapFrameModel::Same {
                frame_type: *frame_type,
            },
            StackMapFrame::SameLocals1StackItem {
                frame_type,
                stack,
            } => StackMapFrameModel::SameLocals1StackItem {
                frame_type: *frame_type,
                stack: *stack,
            },
            StackMapFrame::SameLocals1StackItemExtended {
                offset_delta,
                stack,
            } => StackMapFrameModel::SameLocals1StackItemExtended {
                offset_delta: *offset_delta,
                stack: *stack,
            },
            StackMapFrame::Chop { frame_type, offset_delta } => StackMapFrameModel::Chop {
                frame_type: *frame_type,
                offset_delta: *offset_delta,
            },
            StackMapFrame::SameExtended { offset_delta } => StackMapFrameModel::SameExtended {
                offset_delta: *offset_delta,
            },
            StackMapFrame::Append { offset_delta, locals } => StackMapFrameModel::Append {
                offset_delta: *offset_delta,
                locals: locals@,
            },
            StackMapFrame::Full { offset_delta, locals, stack } => StackMapFrameModel::Full {
                offset_delta: *offset_delta,
                locals: locals@,
                stack: stack@,
            },
        }
    }
}

impl DeepView for StackMapFrame {
    type V = StackMapFrameModel;

    open spec fn deep_view(&self) -> StackMapFrameModel {
        self@
    }
}

/// One attribute, with what it holds.
#[derive(Debug)]
#[allow(inconsistent_fields)]
pub enum Attribute {
    ConstantValue { common: AttributeCommon, constantvalue_index: u16 },
    Code {
        common: AttributeCommon,
        max_stack: u16,
        max_locals: u16,
        code_length: u32,
        code: Vec<u8>,
        exception_table_length: u16,
        exception_table: Vec<ExceptionTableEntry>,
        attribute_count: u16,
        attribute_info: Vec<Attribute>,
    },
    StackMapTable { common: AttributeCommon, number_of_entries: u16, entries: Vec<StackMapFrame> },
    Exceptions {
        common: AttributeCommon,
        number_of_exceptions: u16,
        exception_index_table: Vec<u16>,
    },
    InnerClasses {
        common: AttributeCommon,
        number_of_classes: u16,
        classes: Vec<InnerClassesEntry>,
    },
    EnclosingMethod { common: AttributeCommon, class_index: u16, method_index: u16 },
    Synthetic { common: AttributeCommon },
    Signature { common: AttributeCommon, signature_index: u16 },
    SourceFile { common: AttributeCommon, sourcefile_index: u16 },
    SourceDebugExtension { common: AttributeCommon, debug_extension: Vec<u8> },
    LineNumberTable {
        common: AttributeCommon,
        line_number_table_length: u16,
        line_number_table: Vec<LineNumberTableEntry>,
    },
    LocalVariableTable {
        common: AttributeCommon,
        local_variable_table_length: u16,
        local_variable_table: Vec<LocalVariableTableEntry>,
    },
    LocalVariableTypeTable {
        common: AttributeCommon,
        local_variable_type_table_length: u16,
        local_variable_type_table: Vec<LocalVariableTypeTableEntry>,
    },
    Deprecated { common: AttributeCommon },
    BootstrapMethods {
        common: AttributeCommon,
        num_bootstrap_methods: u16,
        bootstrap_methods: Vec<BootstrapMethod>,
    },
    NestHost { common: AttributeCommon, host_class_index: u16 },
    NestMembers { common: AttributeCommon, number_of_classes: u16, classes: Vec<u16> },
}

/// The mathematical value of an [`Attribute`].
#[allow(inconsistent_fields)]
pub enum AttributeModel {
    ConstantValue { common: AttributeCommon, constantvalue_index: u16 },
    Code {
        common: AttributeCommon,
        max_stack: u16,
        max_locals: u16,
        code_length: u32,
        code: Seq<u8>,
        exception_table_length: u16,
        exception_table: Seq<ExceptionTableEntry>,
        attribute_count: u16,
        attribute_info: Seq<AttributeModel>,
    },
    StackMapTable {
        common: AttributeCommon,
        number_of_entries: u16,
        entries: Seq<StackMapFrameModel>,
    },
    Exceptions {
        common: AttributeCommon,
        number_of_exceptions: u16,
        exception_index_table: Seq<u16>,
    },
    InnerClasses {
        common: AttributeCommon,
        number_of_classes: u16,
        classes: Seq<InnerClassesEntry>,
    },
    EnclosingMethod { common: AttributeCommon, class_index: u16, method_index: u16 },
    Synthetic { common: AttributeCommon },
    Signature { common: AttributeCommon, signature_index: u16 },
    SourceFile { common: AttributeCommon, sourcefile_index: u16 },
    SourceDebugExtension { common: AttributeCommon, debug_extension: Seq<u8> },
    LineNumberTable {
        common: AttributeCommon,
        line_number_table_length: u16,
        line_number_table: Seq<LineNumberTableEntry>,
    },
    LocalVariableTable {
        common: AttributeCommon,
        local_variable_table_length: u16,
        local_variable_table: Seq<LocalVariableTableEntry>,
    },
    LocalVariableTypeTable {
        common: AttributeCommon,
        local_variable_type_table_length: u16,
        local_variable_type_table: Seq<LocalVariableTypeTableEntry>,
    },
    Deprecated { common: AttributeCommon },
    BootstrapMethods {
        common: AttributeCommon,
        num_bootstrap_methods: u16,
        bootstrap_methods: Seq<BootstrapMethodModel>,
    },
    NestHost { common: AttributeCommon, host_class_index: u16 },
    NestMembers { common: AttributeCommon, number_of_classes: u16, classes: Seq<u16> },
}

impl Attribute {
    /// The mathematical value of this attribute.
    pub open spec fn model(&self) -> AttributeModel
        decreases self,
    {
        match self {
            Attribute::ConstantValue {
                common,
                constantvalue_index,
            } => AttributeModel::ConstantValue {
                common: *common,
                constantvalue_index: *constantvalue_index,
            },
            Attribute::Code {
                common,
                max_stack,
                max_locals,
                code_length,
                code,
                exception_table_length,
                exception_table,
                attribute_count,
                attribute_info,
            } => AttributeModel::Code {
                common: *common,
                max_stack: *max_stack,
                max_locals: *max_locals,
                code_length: *code_length,
                code: code@,
                exception_table_length: *exception_table_length,
                exception_table: exception_table@,
                attribute_count: *attribute_count,
                attribute_info: Seq::new(
                    attribute_info.len() as nat,
                    |i: int|
                        if 0 <= i < attribute_info.len() {
                            attribute_info[i].model()
                        } else {
                            AttributeModel::Deprecated { common: *common }
                        },
                ),
            },
            Attribute::StackMapTable {
                common,
                number_of_entries,
                entries,
            } => AttributeModel::StackMapTable {
                common: *common,
                number_of_entries: *number_of_entries,
                entries: entries.deep_view(),
            },
            Attribute::Exceptions {
                common,
                number_of_exceptions,
                exception_index_table,
            } => AttributeModel::Exceptions {
                common: *common,
                number_of_exceptions: *number_of_exceptions,
                exception_index_table: exception_index_table@,
            },
            Attribute::InnerClasses {
                common,
                number_of_classes,
                classes,
            } => AttributeModel::InnerClasses {
                common: *common,
                number_of_classes: *number_of_classes,
                classes: classes@,
            },
            Attribute::EnclosingMethod {
                common,
                class_index,
                method_index,
            } => AttributeModel::EnclosingMethod {
                common: *common,
                class_index: *class_index,
                method_index: *method_index,
            },
            Attribute::Synthetic { common } => AttributeModel::Synthetic { common: *common },
            Attribute::Signature { common, signature_index } => AttributeModel::Signature {
                common: *common,
                signature_index: *signature_index,
            },
            Attribute::SourceFile { common, sourcefile_index } => AttributeModel::SourceFile {
                common: *common,
                sourcefile_index: *sourcefile_index,
            },
            Attribute::SourceDebugExtension {
                common,
                debug_extension,
            } => AttributeModel::SourceDebugExtension {
                common: *common,
                debug_extension: debug_extension@,
            },
            Attribute::LineNumberTable {
                common,
                line_number_table_length,
                line_number_table,
            } => AttributeModel::LineNumberTable {
                common: *common,
                line_number_table_length: *line_number_table_length,
                line_number_table: line_number_table@,
            },
            Attribute::LocalVariableTable {
                common,
                local_variable_table_length,
                local_variable_table,
            } => AttributeModel::LocalVariableTable {
                common: *common,
                local_variable_table_length: *local_variable_table_length,
                local_variable_table: local_variable_table@,
            },
            Attribute::LocalVariableTypeTable {
                common,
                local_variable_type_table_length,
                local_variable_type_table,
            } => AttributeModel::LocalVariableTypeTable {
                common: *common,
                local_variable_type_table_length: *local_variable_type_table_length,
                local_variable_type_table: local_variable_type_table@,
            },
            Attribute::Deprecated { common } => AttributeModel::Deprecated { common: *common },
            Attribute::BootstrapMethods {
                common,
                num_bootstrap_methods,
                bootstrap_methods,
            } => AttributeModel::BootstrapMethods {
                common: *common,
                num_bootstrap_methods: *num_bootstrap_methods,
                bootstrap_methods: bootstrap_methods.deep_view(),
            },
            Attribute::NestHost { common, host_class_index } => AttributeModel::NestHost {
                common: *common,
                host_class_index: *host_class_index,
            },
            Attribute::NestMembers {
                common,
                number_of_classes,
                classes,
            } => AttributeModel::NestMembers {
                common: *common,
                number_of_classes: *number_of_classes,
                classes: classes@,
            },
        }
    }
}

impl View for Attribute {
    type V = AttributeModel;

    open spec fn view(&self) -> AttributeModel {
        self.model()
    }
}

impl DeepView for Attribute {
    type V = AttributeModel;

    open spec fn deep_view(&self) -> AttributeModel {
        self.model()
    }
}

/// The attributes that the decoder knows, by name.
#[derive(Debug, Clone, Copy, PartialEq, Eq, Structural)]
pub enum AttributeKind {
    ConstantValue,
    Code,
    StackMapTable,
    Exceptions,
    InnerClasses,
    EnclosingMethod,
    Synthetic,
    Signature,
    SourceFile,
    SourceDebugExtension,
    LineNumberTable,
    LocalVariableTable,
    LocalVariableTypeTable,
    Deprecated,
    BootstrapMethods,
    NestHost,
    NestMembers,
}

/// The attribute that goes by the name `name`.
pub open spec fn attribute_kind(name: Seq<char>) -> Option<AttributeKind> {
    if name == "ConstantValue"@ {
        Some(AttributeKind::ConstantValue)
    } else if name == "Code"@ {
        Some(AttributeKind::Code)
    } else if name == "StackMapTable"@ {
        Some(AttributeKind::StackMapTable)
    } else if name == "Exceptions"@ {
        Some(AttributeKind::Exceptions)
    } else if name == "InnerClasses"@ {
        Some(AttributeKind::InnerClasses)
    } else if name == "EnclosingMethod"@ {
        Some(AttributeKind::EnclosingMethod)
    } else if name == "Synthetic"@ {
        Some(AttributeKind::Synthetic)
    } else if name == "Signature"@ {
        Some(AttributeKind::Signature)
    } else if name == "SourceFile"@ {
        Some(AttributeKind::SourceFile)
    } else if name == "SourceDebugExtension"@ {
        Some(AttributeKind::SourceDebugExtension)
    } else if name == "LineNumberTable"@ {
        Some(AttributeKind::LineNumberTable)
    } else if name == "LocalVariableTable"@ {
        Some(AttributeKind::LocalVariableTable)
    } else if name == "LocalVariableTypeTable"@ {
        Some(AttributeKind::LocalVariableTypeTable)
    } else if name == "Deprecated"@ {
        Some(AttributeKind::Deprecated)
    } else if name == "BootstrapMethods"@ {
        Some(AttributeKind::BootstrapMethods)
    } else if name == "NestHost"@ {
        Some(AttributeKind::NestHost)
    } else if name == "NestMembers"@ {
        Some(AttributeKind::NestMembers)
    } else {
        None
    }
}

/// The attribute that goes by the name `name`.
pub fn attribute_kind_of(name: &str) -> (r: Option<AttributeKind>)
    ensures
        r == attribute_kind(name@),
{
    if text_is(name, "ConstantValue") {
        Some(AttributeKind::ConstantValue)
    } else if text_is(name, "Code") {
        Some(AttributeKind::Code)
    } else if text_is(name, "StackMapTable") {
        Some(AttributeKind::StackMapTable)
    } else if text_is(name, "Exceptions") {
        Some(AttributeKind::Exceptions)
    } else if text_is(name, "InnerClasses") {
        Some(AttributeKind::InnerClasses)
    } else if text_is(name, "EnclosingMethod") {
        Some(AttributeKind::EnclosingMethod)
    } else if text_is(name, "Synthetic") {
        Some(AttributeKind::Synthetic)
    } else if text_is(name, "Signature") {
        Some(AttributeKind::Signature)
    } else if text_is(name, "SourceFile") {
        Some(AttributeKind::SourceFile)
    } else if text_is(name, "SourceDebugExtension") {
        Some(AttributeKind::SourceDebugExtension)
    } else if text_is(name, "LineNumberTable") {
        Some(AttributeKind::LineNumberTable)
    } else if text_is(name, "LocalVariableTable") {
        Some(AttributeKind::LocalVariableTable)
    } else if text_is(name, "LocalVariableTypeTable") {
        Some(AttributeKind::LocalVariableTypeTable)
    } else if text_is(name, "Deprecated") {
        Some(AttributeKind::Deprecated)
    } else if text_is(name, "BootstrapMethods") {
        Some(AttributeKind::BootstrapMethods)
    } else if text_is(name, "NestHost") {
        Some(AttributeKind::NestHost)
    } else if text_is(name, "NestMembers") {
        Some(AttributeKind::NestMembers)
    } else {
        None
    }
}

/// Whether the format allows an attribute of the kind `kind` at `location`.
pub open spec fn allowed_at(kind: AttributeKind, location: AttributeLocation) -> bool {
    match kind {
        AttributeKind::ConstantValue => location is FieldInfo,
        AttributeKind::Code => location is MethodInfo,
        AttributeKind::StackMapTable => location is Code,
        AttributeKind::Exceptions => location is MethodInfo,
        AttributeKind::InnerClasses => location is ClassFile,
        AttributeKind::EnclosingMethod => location is ClassFile,
        AttributeKind::Synthetic => location is ClassFile || location is FieldInfo
            || location is MethodInfo,
        AttributeKind::Signature => !(location is Code),
        AttributeKind::SourceFile => location is ClassFile,
        AttributeKind::SourceDebugExtension => location is ClassFile,
        AttributeKind::LineNumberTable => location is Code,
        AttributeKind::LocalVariableTable => location is Code,
        AttributeKind::LocalVariableTypeTable => location is Code,
        AttributeKind::Deprecated => true,
        AttributeKind::BootstrapMethods => true,
        AttributeKind::NestHost => location is ClassFile,
        AttributeKind::NestMembers => location is ClassFile,
    }
}

/// Whether the format allows an attribute of the kind `kind` at `location`.
pub fn is_allowed_at(kind: AttributeKind, location: AttributeLocation) -> (r: bool)
    ensures
        r == allowed_at(kind, location),
{
    match kind {
        AttributeKind::ConstantValue => matches!(location, AttributeLocation::FieldInfo),
        AttributeKind::Code => matches!(location, AttributeLocation::MethodInfo),
        AttributeKind::StackMapTable => matches!(location, AttributeLocation::Code),
        AttributeKind::Exceptions => matches!(location, AttributeLocation::MethodInfo),
        AttributeKind::InnerClasses => matches!(location, AttributeLocation::ClassFile),
        AttributeKind::EnclosingMethod => matches!(location, AttributeLocation::ClassFile),
        AttributeKind::Synthetic => matches!(
            location,
            AttributeLocation::ClassFile | AttributeLocation::FieldInfo
                | AttributeLocation::MethodInfo
        ),
        AttributeKind::Signature => !matches!(location, AttributeLocation::Code),
        AttributeKind::SourceFile => matches!(location, AttributeLocation::ClassFile),
        AttributeKind::SourceDebugExtension => matches!(location, AttributeLocation::ClassFile),
        AttributeKind::LineNumberTable => matches!(location, AttributeLocation::Code),
        AttributeKind::LocalVariableTable => matches!(location, AttributeLocation::Code),
        AttributeKind::LocalVariableTypeTable => matches!(location, AttributeLocation::Code),
        AttributeKind::Deprecated => true,
        AttributeKind::BootstrapMethods => true,
        AttributeKind::NestHost => matches!(location, AttributeLocation::ClassFile),
        AttributeKind::NestMembers => matches!(location, AttributeLocation::ClassFile),
    }
}

/// The text of the pool entry at `index`, where that entry is a `Utf8`.
pub open spec fn pool_text(pool: Seq<PoolEntry>, index: int) -> Option<Seq<char>> {
    if 0 <= index < pool.len() {
        match pool[index] {
            PoolEntry::Utf8 { bytes, .. } => Some(bytes),
            _ => None,
        }
    } else {
        None
    }
}

/// The kind of the attribute whose name stands at the pool index `index`.
pub open spec fn named_kind(pool: Seq<PoolEntry>, index: u16) -> Option<AttributeKind> {
    match pool_text(pool, index as int) {
        Some(name) => attribute_kind(name),
        None => None,
    }
}

/// The kind of the attribute whose name stands at the pool index `index`.
pub fn kind_named(constants: &Vec<ConstantsPoolInfo>, index: u16) -> (r: Option<AttributeKind>)
    ensures
        r == named_kind(constants.deep_view(), index),
{
    if (index as usize) < constants.len() {
        assert(constants.deep_view()[index as int] == constants[index as int]@);
        match &constants[index as usize] {
            ConstantsPoolInfo::Utf8 { bytes, .. } => attribute_kind_of(bytes.as_str()),
            _ => None,
        }
    } else {
        None
    }
}

/// The exception table: entry `i` is made of the 4 integers of `w` from the index
/// `4 * i` on.
pub open spec fn exception_entries(w: Seq<u16>) -> Seq<ExceptionTableEntry> {
    Seq::new(
        w.len() / 4,
        |i: int|
            ExceptionTableEntry {
                start_pc: w[4 * i],
                end_pc: w[4 * i + 1],
                handler_pc: w[4 * i + 2],
                catch_type: w[4 * i + 3],
            },
    )
}

/// Packs the integers `w` into the exception table, 4 for each entry.
pub fn pack_exception_entries(w: &Vec<u16>) -> (r: Vec<ExceptionTableEntry>)
    ensures
        r@ == exception_entries(w@),
{
    let n = w.len() / 4;
    let mut out: Vec<ExceptionTableEntry> = Vec::new();
    let mut i: usize = 0;
    while i < n
        invariant
            i <= n,
            n == w.len() / 4,
            out@ == Seq::new(
                i as nat,
                |i: int|
                    ExceptionTableEntry {
                        start_pc: w[4 * i],
                        end_pc: w[4 * i + 1],
                        handler_pc: w[4 * i + 2],
                        catch_type: w[4 * i + 3],
                    },
            ),
        decreases n - i,
    {
        out.push(
            ExceptionTableEntry {
                start_pc: w[4 * i],
                end_pc: w[4 * i + 1],
                handler_pc: w[4 * i + 2],
                catch_type: w[4 * i + 3],
            },
        );
        i = i + 1;
    }
    out
}

/// The table of inner classes: entry `i` is made of the 4 integers of `w` from the index
/// `4 * i` on.
pub open spec fn inner_class_entries(w: Seq<u16>) -> Seq<InnerClassesEntry> {
    Seq::new(
        w.len() / 4,
        |i: int|
            InnerClassesEntry {
                inner_class_info_index: w[4 * i],
                outer_class_info_index: w[4 * i + 1],
                inner_name_index: w[4 * i + 2],
                inner_class_access_flags: w[4 * i + 3],
            },
    )
}

/// Packs the integers `w` into the table of inner classes, 4 for each entry.
pub fn pack_inner_class_entries(w: &Vec<u16>) -> (r: Vec<InnerClassesEntry>)
    ensures
        r@ == inner_class_entries(w@),
{
    let n = w.len() / 4;
    let mut out: Vec<InnerClassesEntry> = Vec::new();
    let mut i: usize = 0;
    while i < n
        invariant
            i <= n,
            n == w.len() / 4,
            out@ == Seq::new(
                i as nat,
                |i: int|
                    InnerClassesEntry {
                        inner_class_info_index: w[4 * i],
                        outer_class_info_index: w[4 * i + 1],
                        inner_name_index: w[4 * i + 2],
                        inner_class_access_flags: w[4 * i + 3],
                    },
            ),
        decreases n - i,
    {
        out.push(
            InnerClassesEntry {
                inner_class_info_index: w[4 * i],
                outer_class_info_index: w[4 * i + 1],
                inner_name_index: w[4 * i + 2],
                inner_class_access_flags: w[4 * i + 3],
            },
        );
        i = i + 1;
    }
    out
}

/// The line number table: entry `i` is made of the 2 integers of `w` from the index
/// `2 * i` on.
pub open spec fn line_number_entries(w: Seq<u16>) -> Seq<LineNumberTableEntry> {
    Seq::new(
        w.len() / 2,
        |i: int|
            LineNumberTableEntry {
                start_pc: w[2 * i],
                line_number: w[2 * i + 1],
            },
    )
}

/// Packs the integers `w` into the line number table, 2 for each entry.
pub fn pack_line_number_entries(w: &Vec<u16>) -> (r: Vec<LineNumberTableEntry>)
    ensures
        r@ == line_number_entries(w@),
{
    let n = w.len() / 2;
    let mut out: Vec<LineNumberTableEntry> = Vec::new();
    let mut i: usize = 0;
    while i < n
        invariant
            i <= n,
            n == w.len() / 2,
            out@ == Seq::new(
                i as nat,
                |i: int|
                    LineNumberTableEntry {
                        start_pc: w[2 * i],
                        line_number: w[2 * i + 1],
                    },
            ),
        decreases n - i,
    {
        out.push(
            LineNumberTableEntry {
                start_pc: w[2 * i],
                line_number: w[2 * i + 1],
            },
        );
        i = i + 1;
    }
    out
}

/// The local variable table: entry `i` is made of the 5 integers of `w` from the index
/// `5 * i` on.
pub open spec fn local_variable_entries(w: Seq<u16>) -> Seq<LocalVariableTableEntry> {
    Seq::new(
        w.len() / 5,
        |i: int|
            LocalVariableTableEntry {
                start_pc: w[5 * i],
                length: w[5 * i + 1],
                name_index: w[5 * i + 2],
                descriptor_index: w[5 * i + 3],
                index: w[5 * i + 4],
            },
    )
}

/// Packs the integers `w` into the local variable table, 5 for each entry.
pub fn pack_local_variable_entries(w: &Vec<u16>) -> (r: Vec<LocalVariableTableEntry>)
    ensures
        r@ == local_variable_entries(w@),
{
    let n = w.len() / 5;
    let mut out: Vec<LocalVariableTableEntry> = Vec::new();
    let mut i: usize = 0;
    while i < n
        invariant
            i <= n,
            n == w.len() / 5,
            out@ == Seq::new(
                i as nat,
                |i: int|
                    LocalVariableTableEntry {
                        start_pc: w[5 * i],
                        length: w[5 * i + 1],
                        name_index: w[5 * i + 2],
                        descriptor_index: w[5 * i + 3],
                        index: w[5 * i + 4],
                    },
            ),
        decreases n - i,
    {
        out.push(
            LocalVariableTableEntry {
                start_pc: w[5 * i],
                length: w[5 * i + 1],
                name_index: w[5 * i + 2],
                descriptor_index: w[5 * i + 3],
                index: w[5 * i + 4],
            },
        );
        i = i + 1;
    }
    out
}

/// The local variable type table: entry `i` is made of the 5 integers of `w` from the index
/// `5 * i` on.
pub open spec fn local_variable_type_entries(w: Seq<u16>) -> Seq<LocalVariableTypeTableEntry> {
    Seq::new(
        w.len() / 5,
        |i: int|
            LocalVariableTypeTableEntry {
                start_pc: w[5 * i],
                length: w[5 * i + 1],
                name_index: w[5 * i + 2],
                signature_index: w[5 * i + 3],
                index: w[5 * i + 4],
            },
    )
}

/// Packs the integers `w` into the local variable type table, 5 for each entry.
pub fn pack_local_variable_type_entries(w: &Vec<u16>) -> (r: Vec<LocalVariableTypeTableEntry>)
    ensures
        r@ == local_variable_type_entries(w@),
{
    let n = w.len() / 5;
    let mut out: Vec<LocalVariableTypeTableEntry> = Vec::new();
    let mut i: usize = 0;
    while i < n
        invariant
            i <= n,
            n == w.len() / 5,
            out@ == Seq::new(
                i as nat,
                |i: int|
                    LocalVariableTypeTableEntry {
                        start_pc: w[5 * i],
                        length: w[5 * i + 1],
                        name_index: w[5 * i + 2],
                        signature_index: w[5 * i + 3],
                        index: w[5 * i + 4],
                    },
            ),
        decreases n - i,
    {
        out.push(
            LocalVariableTypeTableEntry {
                start_pc: w[5 * i],
                length: w[5 * i + 1],
                name_index: w[5 * i + 2],
                signature_index: w[5 * i + 3],
                index: w[5 * i + 4],
            },
        );
        i = i + 1;
    }
    out
}

/// The verification type that starts `s`, and what follows it.
pub open spec fn verification_type_at(s: Seq<u8>) -> Result<(VerificationType, Seq<u8>), Failure> {
    match take_u8(s) {
        Err(e) => Err(e),
        Ok((tag, body)) => if tag == 0 {
            Ok((VerificationType::Top, body))
        } else if tag == 1 {
            Ok((VerificationType::Integer, body))
        } else if tag == 2 {
            Ok((VerificationType::Float, body))
        } else if tag == 3 {
            Ok((VerificationType::Double, body))
        } else if tag == 4 {
            Ok((VerificationType::Long, body))
        } else if tag == 5 {
            Ok((VerificationType::Null, body))
        } else if tag == 6 {
            Ok((VerificationType::UninitializedThis, body))
        } else if tag == 7 {
            match take_u16(body) {
                Err(e) => Err(e),
                Ok((cpool_index, rest)) => Ok((VerificationType::Object { cpool_index }, rest)),
            }
        } else if tag == 8 {
            match take_u16(body) {
                Err(e) => Err(e),
                Ok((offset, rest)) => Ok((VerificationType::Uninitialized { offset }, rest)),
            }
        } else {
            Err(Failure::at(ClassError::UnknownVerificationType(tag), s))
        },
    }
}

/// The `n` verification types that start `s`, and what follows them.
pub open spec fn verification_types_at(s: Seq<u8>, n: nat) -> Result<
    (Seq<VerificationType>, Seq<u8>),
    Failure,
>
    decreases n,
{
    if n == 0 {
        Ok((Seq::<VerificationType>::empty(), s))
    } else {
        match verification_type_at(s) {
            Err(e) => Err(e),
            Ok((first, after)) => match verification_types_at(after, (n - 1) as nat) {
                Err(e) => Err(e),
                Ok((more, rest)) => Ok((seq![first] + more, rest)),
            },
        }
    }
}

/// The stack map frame that starts `s`, and what follows it. The first byte
/// is the frame type, which says what the frame holds.
pub open spec fn stack_map_frame_at(s: Seq<u8>) -> Result<(StackMapFrameModel, Seq<u8>), Failure> {
    match take_u8(s) {
        Err(e) => Err(e),
        Ok((frame_type, body)) => if frame_type <= 63 {
            Ok((StackMapFrameModel::Same { frame_type }, body))
        } else if frame_type <= 127 {
            match verification_type_at(body) {
                Err(e) => Err(e),
                Ok((stack, rest)) => Ok(
                    (StackMapFrameModel::SameLocals1StackItem { frame_type, stack }, rest),
                ),
            }
        } else if frame_type <= 246 {
            Err(Failure::at(ClassError::UnknownStackMapFrame(frame_type), s))
        } else {
            match take_u16(body) {
                Err(e) => Err(e),
                Ok((offset_delta, after)) => if frame_type == 247 {
                    match verification_type_at(after) {
                        Err(e) => Err(e),
                        Ok((stack, rest)) => Ok(
                            (
                                StackMapFrameModel::SameLocals1StackItemExtended {
                                    offset_delta,
                                    stack,
                                },
                                rest,
                            ),
                        ),
                    }
                } else if frame_type <= 250 {
                    Ok((StackMapFrameModel::Chop { frame_type, offset_delta }, after))
                } else if frame_type == 251 {
                    Ok((StackMapFrameModel::SameExtended { offset_delta }, after))
                } else if frame_type <= 254 {
                    match verification_types_at(after, (frame_type - 251) as nat) {
                        Err(e) => Err(e),
                        Ok((locals, rest)) => Ok(
                            (StackMapFrameModel::Append { offset_delta, locals }, rest),
                        ),
                    }
                } else {
                    match take_u16(after) {
                        Err(e) => Err(e),
                        Ok((number_of_locals, s1)) => match verification_types_at(
                            s1,
                            number_of_locals as nat,
                        ) {
                            Err(e) => Err(e),
                            Ok((locals, s2)) => match take_u16(s2) {
                                Err(e) => Err(e),
                                Ok((number_of_stack_items, s3)) => match verification_types_at(
                                    s3,
                                    number_of_stack_items as nat,
                                ) {
                                    Err(e) => Err(e),
                                    Ok((stack, rest)) => Ok(
                                        (
                                            StackMapFrameModel::Full { offset_delta, locals, stack },
                                            rest,
                                        ),
                                    ),
                                },
                            },
                        },
                    }
                },
            }
        },
    }
}

/// The `n` stack map frames that start `s`, and what follows them.
pub open spec fn stack_map_frames_at(s: Seq<u8>, n: nat) -> Result<
    (Seq<StackMapFrameModel>, Seq<u8>),
    Failure,
>
    decreases n,
{
    if n == 0 {
        Ok((Seq::<StackMapFrameModel>::empty(), s))
    } else {
        match stack_map_frame_at(s) {
            Err(e) => Err(e),
            Ok((first, after)) => match stack_map_frames_at(after, (n - 1) as nat) {
                Err(e) => Err(e),
                Ok((more, rest)) => Ok((seq![first] + more, rest)),
            },
        }
    }
}

/// The `n` bootstrap methods that start `s`, and what follows them. Each is
/// a method reference, a count, and that many arguments.
pub open spec fn bootstrap_methods_at(s: Seq<u8>, n: nat) -> Result<
    (Seq<BootstrapMethodModel>, Seq<u8>),
    Failure,
>
    decreases n,
{
    if n == 0 {
        Ok((Seq::<BootstrapMethodModel>::empty(), s))
    } else {
        match bootstrap_method_at(s) {
            Err(e) => Err(e),
            Ok((first, after)) => match bootstrap_methods_at(after, (n - 1) as nat) {
                Err(e) => Err(e),
                Ok((more, rest)) => Ok((seq![first] + more, rest)),
            },
        }
    }
}

/// The bootstrap method that starts `s`, and what follows it.
pub open spec fn bootstrap_method_at(s: Seq<u8>) -> Result<
    (BootstrapMethodModel, Seq<u8>),
    Failure,
> {
    match take_u16(s) {
        Err(e) => Err(e),
        Ok((bootstrap_method_ref, s1)) => match take_u16(s1) {
            Err(e) => Err(e),
            Ok((num_bootstrap_arguments, s2)) => match take_u16s(
                s2,
                num_bootstrap_arguments as nat,
            ) {
                Err(e) => Err(e),
                Ok((bootstrap_arguments, rest)) => Ok(
                    (
                        BootstrapMethodModel {
                            bootstrap_method_ref,
                            num_bootstrap_arguments,
                            bootstrap_arguments,
                        },
                        rest,
                    ),
                ),
            },
        },
    }
}

impl VerificationType {
    /// Reads one verification type.
    pub fn read_from(b: &mut Bytes) -> (r: Result<VerificationType, Failure>)
        ensures
            match verification_type_at(buf_content(*old(b))) {
                Ok((t, rest)) => r == Ok::<VerificationType, Failure>(t) && buf_content(*final(b))
                    == rest,
                Err(e) => r == Err::<VerificationType, Failure>(e),
            },
    {
        let left = buf_remaining(b);
        let tag = read_u8(b)?;
        if tag == 0 {
            Ok(VerificationType::Top)
        } else if tag == 1 {
            Ok(VerificationType::Integer)
        } else if tag == 2 {
            Ok(VerificationType::Float)
        } else if tag == 3 {
            Ok(VerificationType::Double)
        } else if tag == 4 {
            Ok(VerificationType::Long)
        } else if tag == 5 {
            Ok(VerificationType::Null)
        } else if tag == 6 {
            Ok(VerificationType::UninitializedThis)
        } else if tag == 7 {
            let cpool_index = read_u16(b)?;
            Ok(VerificationType::Object { cpool_index })
        } else if tag == 8 {
            let offset = read_u16(b)?;
            Ok(VerificationType::Uninitialized { offset })
        } else {
            Err(Failure { error: ClassError::UnknownVerificationType(tag), left })
        }
    }
}

/// Reads `n` verification types.
#[verifier::loop_isolation(false)]
pub fn read_verification_types(b: &mut Bytes, n: u16) -> (r: Result<
    Vec<VerificationType>,
    Failure,
>)
    ensures
        match verification_types_at(buf_content(*old(b)), n as nat) {
            Ok((types, rest)) => r matches Ok(out) && out@ == types && buf_content(*final(b))
                == rest,
            Err(e) => r matches Err(x) && x == e,
        },
{
    let ghost s = buf_content(*b);
    let mut out: Vec<VerificationType> = Vec::new();
    let mut i: u16 = 0;
    assert(Seq::<VerificationType>::empty() + Seq::<VerificationType>::empty() == Seq::<
        VerificationType,
    >::empty());
    while i < n
        invariant
            i <= n,
            verification_types_at(s, n as nat) == (match verification_types_at(
                buf_content(*b),
                (n - i) as nat,
            ) {
                Ok((more, rest)) => Ok::<(Seq<VerificationType>, Seq<u8>), Failure>(
                    (out@ + more, rest),
                ),
                Err(e) => Err(e),
            }),
        decreases n - i,
    {
        let ghost before = out@;
        let t = VerificationType::read_from(b)?;
        out.push(t);
        proof {
            match verification_types_at(buf_content(*b), (n - i - 1) as nat) {
                Ok((more, rest)) => {
                    assert(before + (seq![t] + more) == out@ + more);
                },
                Err(e) => {},
            }
        }
        i = i + 1;
    }
    assert(out@ + Seq::<VerificationType>::empty() == out@);
    Ok(out)
}

/// Reads one stack map frame.
pub fn read_stack_map_frame(b: &mut Bytes) -> (r: Result<StackMapFrame, Failure>)
    ensures
        match stack_map_frame_at(buf_content(*old(b))) {
            Ok((f, rest)) => r matches Ok(out) && out@ == f && buf_content(*final(b)) == rest,
            Err(e) => r matches Err(x) && x == e,
        },
{
    let left = buf_remaining(b);
    let frame_type = read_u8(b)?;
    if frame_type <= 63 {
        Ok(StackMapFrame::Same { frame_type })
    } else if frame_type <= 127 {
        let stack = VerificationType::read_from(b)?;
        Ok(StackMapFrame::SameLocals1StackItem { frame_type, stack })
    } else if frame_type <= 246 {
        Err(Failure { error: ClassError::UnknownStackMapFrame(frame_type), left })
    } else {
        let offset_delta = read_u16(b)?;
        if frame_type == 247 {
            let stack = VerificationType::read_from(b)?;
            Ok(StackMapFrame::SameLocals1StackItemExtended { offset_delta, stack })
        } else if frame_type <= 250 {
            Ok(StackMapFrame::Chop { frame_type, offset_delta })
        } else if frame_type == 251 {
            Ok(StackMapFrame::SameExtended { offset_delta })
        } else if frame_type <= 254 {
            let k: u16 = (frame_type - 251) as u16;
            let locals = read_verification_types(b, k)?;
            Ok(StackMapFrame::Append { offset_delta, locals })
        } else {
            let number_of_locals = read_u16(b)?;
            let locals = read_verification_types(b, number_of_locals)?;
            let number_of_stack_items = read_u16(b)?;
            let stack = read_verification_types(b, number_of_stack_items)?;
            Ok(StackMapFrame::Full { offset_delta, locals, stack })
        }
    }
}

/// Reads `n` stack map frames.
#[verifier::loop_isolation(false)]
pub fn read_stack_map_frames(b: &mut Bytes, n: u16) -> (r: Result<Vec<StackMapFrame>, Failure>)
    ensures
        match stack_map_frames_at(buf_content(*old(b)), n as nat) {
            Ok((frames, rest)) => r matches Ok(out) && out.deep_view() == frames && buf_content(
                *final(b),
            ) == rest,
            Err(e) => r matches Err(x) && x == e,
        },
{
    let ghost s = buf_content(*b);
    let mut out: Vec<StackMapFrame> = Vec::new();
    let mut i: u16 = 0;
    assert(out.deep_view() + Seq::<StackMapFrameModel>::empty() == Seq::<
        StackMapFrameModel,
    >::empty());
    while i < n
        invariant
            i <= n,
            stack_map_frames_at(s, n as nat) == (match stack_map_frames_at(
                buf_content(*b),
                (n - i) as nat,
            ) {
                Ok((more, rest)) => Ok::<(Seq<StackMapFrameModel>, Seq<u8>), Failure>(
                    (out.deep_view() + more, rest),
                ),
                Err(e) => Err(e),
            }),
        decreases n - i,
    {
        let ghost before = out.deep_view();
        let f = read_stack_map_frame(b)?;
        let ghost model = f@;
        out.push(f);
        proof {
            assert(out.deep_view() == before.push(model));
            match stack_map_frames_at(buf_content(*b), (n - i - 1) as nat) {
                Ok((more, rest)) => {
                    assert(before + (seq![model] + more) == out.deep_view() + more);
                },
                Err(e) => {},
            }
        }
        i = i + 1;
    }
    assert(out.deep_view() + Seq::<StackMapFrameModel>::empty() == out.deep_view());
    Ok(out)
}

/// Reads one bootstrap method.
pub fn read_bootstrap_method(b: &mut Bytes) -> (r: Result<BootstrapMethod, Failure>)
    ensures
        match bootstrap_method_at(buf_content(*old(b))) {
            Ok((m, rest)) => r matches Ok(out) && out@ == m && buf_content(*final(b)) == rest,
            Err(e) => r matches Err(x) && x == e,
        },
{
    let bootstrap_method_ref = read_u16(b)?;
    let num_bootstrap_arguments = read_u16(b)?;
    let bootstrap_arguments = read_u16s(b, num_bootstrap_arguments as usize)?;
    Ok(BootstrapMethod { bootstrap_method_ref, num_bootstrap_arguments, bootstrap_arguments })
}

/// Reads `n` bootstrap methods.
#[verifier::loop_isolation(false)]
pub fn read_bootstrap_methods(b: &mut Bytes, n: u16) -> (r: Result<
    Vec<BootstrapMethod>,
    Failure,
>)
    ensures
        match bootstrap_methods_at(buf_content(*old(b)), n as nat) {
            Ok((methods, rest)) => r matches Ok(out) && out.deep_view() == methods && buf_content(
                *final(b),
            ) == rest,
            Err(e) => r matches Err(x) && x == e,
        },
{
    let ghost s = buf_content(*b);
    let mut out: Vec<BootstrapMethod> = Vec::new();
    let mut i: u16 = 0;
    assert(out.deep_view() + Seq::<BootstrapMethodModel>::empty() == Seq::<
        BootstrapMethodModel,
    >::empty());
    while i < n
        invariant
            i <= n,
            bootstrap_methods_at(s, n as nat) == (match bootstrap_methods_at(
                buf_content(*b),
                (n - i) as nat,
            ) {
                Ok((more, rest)) => Ok::<(Seq<BootstrapMethodModel>, Seq<u8>), Failure>(
                    (out.deep_view() + more, rest),
                ),
                Err(e) => Err(e),
            }),
        decreases n - i,
    {
        let ghost before = out.deep_view();
        let m = read_bootstrap_method(b)?;
        let ghost model = m@;
        out.push(m);
        proof {
            assert(out.deep_view() == before.push(model));
            match bootstrap_methods_at(buf_content(*b), (n - i - 1) as nat) {
                Ok((more, rest)) => {
                    assert(before + (seq![model] + more) == out.deep_view() + more);
                },
                Err(e) => {},
            }
        }
        i = i + 1;
    }
    assert(out.deep_view() + Seq::<BootstrapMethodModel>::empty() == out.deep_view());
    Ok(out)
}

/// What the payload `s` of an attribute of the kind `kind` holds.
pub open spec fn attribute_payload(
    pool: Seq<PoolEntry>,
    kind: AttributeKind,
    common: AttributeCommon,
    s: Seq<u8>,
) -> Result<AttributeModel, Failure>
    decreases s.len(), 0nat,
{
    match kind {
        AttributeKind::ConstantValue => match take_u16(s) {
            Err(e) => Err(e),
            Ok((constantvalue_index, _)) => Ok(
                AttributeModel::ConstantValue { common, constantvalue_index },
            ),
        },
        AttributeKind::Code => match take_u16(s) {
            Err(e) => Err(e),
            Ok((max_stack, s1)) => match take_u16(s1) {
                Err(e) => Err(e),
                Ok((max_locals, s2)) => match take_u32(s2) {
                    Err(e) => Err(e),
                    Ok((code_length, s3)) => match take_bytes(s3, code_length as nat) {
                        Err(e) => Err(e),
                        Ok((code, s4)) => match take_u16(s4) {
                            Err(e) => Err(e),
                            Ok((exception_table_length, s5)) => match take_u16s(
                                s5,
                                4 * exception_table_length as nat,
                            ) {
                                Err(e) => Err(e),
                                Ok((words, s6)) => match take_u16(s6) {
                                    Err(e) => Err(e),
                                    Ok((attribute_count, s7)) => if s7.len() < s.len() {
                                        match attributes_at(
                                            pool,
                                            s7,
                                            attribute_count as nat,
                                            AttributeLocation::Code,
                                        ) {
                                            Err(e) => Err(e),
                                            Ok((attribute_info, _)) => Ok(
                                                AttributeModel::Code {
                                                    common,
                                                    max_stack,
                                                    max_locals,
                                                    code_length,
                                                    code,
                                                    exception_table_length,
                                                    exception_table: exception_entries(words),
                                                    attribute_count,
                                                    attribute_info,
                                                },
                                            ),
                                        }
                                    } else {
                                        Err(Failure::at(ClassError::TruncatedInput, s))
                                    },
                                },
                            },
                        },
                    },
                },
            },
        },
        AttributeKind::StackMapTable => match take_u16(s) {
            Err(e) => Err(e),
            Ok((number_of_entries, after)) => match stack_map_frames_at(
                after,
                number_of_entries as nat,
            ) {
                Err(e) => Err(e),
                Ok((entries, _)) => Ok(
                    AttributeModel::StackMapTable { common, number_of_entries, entries },
                ),
            },
        },
        AttributeKind::Exceptions => match take_u16(s) {
            Err(e) => Err(e),
            Ok((number_of_exceptions, after)) => match take_u16s(
                after,
                number_of_exceptions as nat,
            ) {
                Err(e) => Err(e),
                Ok((exception_index_table, _)) => Ok(
                    AttributeModel::Exceptions {
                        common,
                        number_of_exceptions,
                        exception_index_table,
                    },
                ),
            },
        },
        AttributeKind::InnerClasses => match take_u16(s) {
            Err(e) => Err(e),
            Ok((number_of_classes, after)) => match take_u16s(after, 4 * number_of_classes as nat) {
                Err(e) => Err(e),
                Ok((words, _)) => Ok(
                    AttributeModel::InnerClasses {
                        common,
                        number_of_classes,
                        classes: inner_class_entries(words),
                    },
                ),
            },
        },
        AttributeKind::EnclosingMethod => match take_u16(s) {
            Err(e) => Err(e),
            Ok((class_index, after)) => match take_u16(after) {
                Err(e) => Err(e),
                Ok((method_index, _)) => Ok(
                    AttributeModel::EnclosingMethod { common, class_index, method_index },
                ),
            },
        },
        AttributeKind::Synthetic => Ok(AttributeModel::Synthetic { common }),
        AttributeKind::Signature => match take_u16(s) {
            Err(e) => Err(e),
            Ok((signature_index, _)) => Ok(AttributeModel::Signature { common, signature_index }),
        },
        AttributeKind::SourceFile => match take_u16(s) {
            Err(e) => Err(e),
            Ok((sourcefile_index, _)) => Ok(
                AttributeModel::SourceFile { common, sourcefile_index },
            ),
        },
        AttributeKind::SourceDebugExtension => match take_bytes(
            s,
            common.attribute_length as nat,
        ) {
            Err(e) => Err(e),
            Ok((debug_extension, _)) => Ok(
                AttributeModel::SourceDebugExtension { common, debug_extension },
            ),
        },
        AttributeKind::LineNumberTable => match take_u16(s) {
            Err(e) => Err(e),
            Ok((line_number_table_length, after)) => match take_u16s(
                after,
                2 * line_number_table_length as nat,
            ) {
                Err(e) => Err(e),
                Ok((words, _)) => Ok(
                    AttributeModel::LineNumberTable {
                        common,
                        line_number_table_length,
                        line_number_table: line_number_entries(words),
                    },
                ),
            },
        },
        AttributeKind::LocalVariableTable => match take_u16(s) {
            Err(e) => Err(e),
            Ok((local_variable_table_length, after)) => match take_u16s(
                after,
                5 * local_variable_table_length as nat,
            ) {
                Err(e) => Err(e),
                Ok((words, _)) => Ok(
                    AttributeModel::LocalVariableTable {
                        common,
                        local_variable_table_length,
                        local_variable_table: local_variable_entries(words),
                    },
                ),
            },
        },
        AttributeKind::LocalVariableTypeTable => match take_u16(s) {
            Err(e) => Err(e),
            Ok((local_variable_type_table_length, after)) => match take_u16s(
                after,
                5 * local_variable_type_table_length as nat,
            ) {
                Err(e) => Err(e),
                Ok((words, _)) => Ok(
                    AttributeModel::LocalVariableTypeTable {
                        common,
                        local_variable_type_table_length,
                        local_variable_type_table: local_variable_type_entries(words),
                    },
                ),
            },
        },
        AttributeKind::Deprecated => Ok(AttributeModel::Deprecated { common }),
        AttributeKind::BootstrapMethods => match take_u16(s) {
            Err(e) => Err(e),
            Ok((num_bootstrap_methods, after)) => match bootstrap_methods_at(
                after,
                num_bootstrap_methods as nat,
            ) {
                Err(e) => Err(e),
                Ok((bootstrap_methods, _)) => Ok(
                    AttributeModel::BootstrapMethods {
                        common,
                        num_bootstrap_methods,
                        bootstrap_methods,
                    },
                ),
            },
        },
        AttributeKind::NestHost => match take_u16(s) {
            Err(e) => Err(e),
            Ok((host_class_index, _)) => Ok(AttributeModel::NestHost { common, host_class_index }),
        },
        AttributeKind::NestMembers => match take_u16(s) {
            Err(e) => Err(e),
            Ok((number_of_classes, after)) => match take_u16s(after, number_of_classes as nat) {
                Err(e) => Err(e),
                Ok((classes, _)) => Ok(
                    AttributeModel::NestMembers { common, number_of_classes, classes },
                ),
            },
        },
    }
}

/// The attribute with the header `common` and the payload `s`, found at
/// `location`. The name that the header points to, in the pool, says which
/// attribute it is; the error is `UnknownAttribute` where it is no name that
/// the decoder knows, and `WrongAttributeLocation` where the format does not
/// allow that attribute at `location`.
pub open spec fn attribute_of(
    pool: Seq<PoolEntry>,
    s: Seq<u8>,
    common: AttributeCommon,
    location: AttributeLocation,
) -> Result<AttributeModel, Failure>
    decreases s.len(), 1nat,
{
    match named_kind(pool, common.attribute_name_index) {
        None => Err(Failure::at(ClassError::UnknownAttribute(common.attribute_name_index), s)),
        Some(kind) => if allowed_at(kind, location) {
            attribute_payload(pool, kind, common, s)
        } else {
            Err(Failure::at(ClassError::WrongAttributeLocation(common.attribute_name_index), s))
        },
    }
}

/// The `n` attributes that start `s`, each with its header of six bytes, and
/// what follows them.
pub open spec fn attributes_at(
    pool: Seq<PoolEntry>,
    s: Seq<u8>,
    n: nat,
    location: AttributeLocation,
) -> Result<(Seq<AttributeModel>, Seq<u8>), Failure>
    decreases s.len(), 2nat,
{
    if n == 0 {
        Ok((Seq::<AttributeModel>::empty(), s))
    } else {
        match take_u16(s) {
            Err(e) => Err(e),
            Ok((attribute_name_index, s1)) => match take_u32(s1) {
                Err(e) => Err(e),
                Ok((attribute_length, s2)) => match take_bytes(s2, attribute_length as nat) {
                    Err(e) => Err(e),
                    Ok((payload, after)) => match attribute_of(
                        pool,
                        payload,
                        AttributeCommon { attribute_name_index, attribute_length },
                        location,
                    ) {
                        Err(e) => Err(e.within(after)),
                        Ok((first)) => match attributes_at(pool, after, (n - 1) as nat, location) {
                            Err(e) => Err(e),
                            Ok((more, rest)) => Ok((seq![first] + more, rest)),
                        },
                    },
                },
            },
        }
    }
}

/// Verification types, stack map frames and bootstrap methods are read from
/// the front of the bytes: what follows them is no longer than what was there,
/// and a failure lies in what was there.
pub proof fn lemma_tables_bounds(s: Seq<u8>, n: nat)
    requires
        s.len() <= usize::MAX,
    ensures
        match verification_types_at(s, n) {
            Ok((_, rest)) => rest.len() <= s.len(),
            Err(e) => e.left <= s.len(),
        },
        match stack_map_frame_at(s) {
            Ok((_, rest)) => rest.len() <= s.len(),
            Err(e) => e.left <= s.len(),
        },
        match stack_map_frames_at(s, n) {
            Ok((_, rest)) => rest.len() <= s.len(),
            Err(e) => e.left <= s.len(),
        },
        match bootstrap_methods_at(s, n) {
            Ok((_, rest)) => rest.len() <= s.len(),
            Err(e) => e.left <= s.len(),
        },
    decreases n, 1nat,
{
    if n > 0 {
        match verification_type_at(s) {
            Ok((_, after)) => {
                lemma_tables_bounds(after, (n - 1) as nat);
            },
            Err(_) => {},
        }
        match bootstrap_method_at(s) {
            Ok((_, after)) => {
                lemma_tables_bounds(after, (n - 1) as nat);
            },
            Err(_) => {},
        }
    }
    lemma_frame_bounds(s);
    if n > 0 {
        match stack_map_frame_at(s) {
            Ok((_, after)) => {
                lemma_tables_bounds(after, (n - 1) as nat);
            },
            Err(_) => {},
        }
    }
}

/// The same of one stack map frame.
pub proof fn lemma_frame_bounds(s: Seq<u8>)
    requires
        s.len() <= usize::MAX,
    ensures
        match stack_map_frame_at(s) {
            Ok((_, rest)) => rest.len() <= s.len(),
            Err(e) => e.left <= s.len(),
        },
{
    if s.len() >= 1 {
        let frame_type = s[0];
        let body = s.skip(1);
        if frame_type > 246 && body.len() >= 2 {
            let after = body.skip(2);
            if 252 <= frame_type <= 254 {
                lemma_types_bounds(after, (frame_type - 251) as nat);
            } else if frame_type == 255 && after.len() >= 2 {
                let s1 = after.skip(2);
                let number_of_locals = take_u16(after)->Ok_0.0;
                lemma_types_bounds(s1, number_of_locals as nat);
                match verification_types_at(s1, number_of_locals as nat) {
                    Ok((_, s2)) => {
                        if s2.len() >= 2 {
                            let number_of_stack_items = take_u16(s2)->Ok_0.0;
                            lemma_types_bounds(s2.skip(2), number_of_stack_items as nat);
                        }
                    },
                    Err(_) => {},
                }
            }
        }
    }
}

/// The same of verification types.
pub proof fn lemma_types_bounds(s: Seq<u8>, n: nat)
    requires
        s.len() <= usize::MAX,
    ensures
        match verification_types_at(s, n) {
            Ok((_, rest)) => rest.len() <= s.len(),
            Err(e) => e.left <= s.len(),
        },
    decreases n,
{
    if n > 0 {
        match verification_type_at(s) {
            Ok((_, after)) => {
                lemma_types_bounds(after, (n - 1) as nat);
            },
            Err(_) => {},
        }
    }
}

/// Attributes are read from the front of the bytes: what follows them is no
/// longer than what was there, and a failure lies in what was there.
pub proof fn lemma_attributes_bounds(
    pool: Seq<PoolEntry>,
    s: Seq<u8>,
    n: nat,
    location: AttributeLocation,
)
    requires
        s.len() <= usize::MAX,
    ensures
        match attributes_at(pool, s, n, location) {
            Ok((_, rest)) => rest.len() <= s.len(),
            Err(e) => e.left <= s.len(),
        },
    decreases s.len(), 2nat,
{
    if n > 0 && s.len() >= 6 {
        let s2 = s.skip(2).skip(4);
        let attribute_name_index = take_u16(s)->Ok_0.0;
        let attribute_length = take_u32(s.skip(2))->Ok_0.0;
        if s2.len() >= attribute_length {
            let payload = s2.take(attribute_length as int);
            let after = s2.skip(attribute_length as int);
            lemma_attribute_bounds(
                pool,
                payload,
                AttributeCommon { attribute_name_index, attribute_length },
                location,
            );
            lemma_attributes_bounds(pool, after, (n - 1) as nat, location);
        }
    }
}

/// A failure of reading an attribute lies in its payload.
pub proof fn lemma_attribute_bounds(
    pool: Seq<PoolEntry>,
    s: Seq<u8>,
    common: AttributeCommon,
    location: AttributeLocation,
)
    requires
        s.len() <= usize::MAX,
    ensures
        attribute_of(pool, s, common, location) matches Err(e) ==> e.left <= s.len(),
    decreases s.len(), 1nat,
{
    match named_kind(pool, common.attribute_name_index) {
        Some(kind) => {
            if allowed_at(kind, location) {
                lemma_payload_bounds(pool, kind, common, s);
            }
        },
        None => {},
    }
}

/// A failure of reading the payload of an attribute lies in the payload.
pub proof fn lemma_payload_bounds(
    pool: Seq<PoolEntry>,
    kind: AttributeKind,
    common: AttributeCommon,
    s: Seq<u8>,
)
    requires
        s.len() <= usize::MAX,
    ensures
        attribute_payload(pool, kind, common, s) matches Err(e) ==> e.left <= s.len(),
    decreases s.len(), 0nat,
{
    if s.len() >= 2 {
        let n = take_u16(s)->Ok_0.0;
        let after = s.skip(2);
        match kind {
            AttributeKind::StackMapTable => {
                lemma_tables_bounds(after, n as nat);
            },
            AttributeKind::BootstrapMethods => {
                lemma_tables_bounds(after, n as nat);
            },
            AttributeKind::Code => {
                if s.len() >= 8 {
                    let s3 = s.skip(2).skip(2).skip(4);
                    let code_length = take_u32(s.skip(2).skip(2))->Ok_0.0;
                    if s3.len() >= code_length {
                        let s4 = s3.skip(code_length as int);
                        if s4.len() >= 2 {
                            let exception_table_length = take_u16(s4)->Ok_0.0;
                            let s5 = s4.skip(2);
                            match take_u16s(s5, 4 * exception_table_length as nat) {
                                Ok((_, s6)) => {
                                    if s6.len() >= 2 {
                                        let attribute_count = take_u16(s6)->Ok_0.0;
                                        lemma_attributes_bounds(
                                            pool,
                                            s6.skip(2),
                                            attribute_count as nat,
                                            AttributeLocation::Code,
                                        );
                                    }
                                },
                                Err(_) => {},
                            }
                        }
                    }
                }
            },
            _ => {},
        }
    }
}

impl Attribute {
    /// Decodes the attribute with the header `common` and the payload `bytes`,
    /// found at `location`.
    pub fn parse(
        bytes: Bytes,
        constants: &Vec<ConstantsPoolInfo>,
        common: AttributeCommon,
        location: AttributeLocation,
    ) -> (r: Result<Attribute, Failure>)
        ensures
            match attribute_of(constants.deep_view(), buf_content(bytes), common, location) {
                Ok(a) => r matches Ok(out) && out.model() == a,
                Err(e) => r matches Err(x) && x == e,
            },
        decreases buf_content(bytes).len(), 1nat,
    {
        let left = buf_remaining(&bytes);
        match kind_named(constants, common.attribute_name_index) {
            None => Err(
                Failure {
                    error: ClassError::UnknownAttribute(common.attribute_name_index),
                    left,
                },
            ),
            Some(kind) => {
                if is_allowed_at(kind, location) {
                    Self::parse_payload(bytes, constants, kind, common)
                } else {
                    Err(
                        Failure {
                            error: ClassError::WrongAttributeLocation(
                                common.attribute_name_index,
                            ),
                            left,
                        },
                    )
                }
            },
        }
    }

    /// Decodes the payload of an attribute of the kind `kind`.
    fn parse_payload(
        bytes: Bytes,
        constants: &Vec<ConstantsPoolInfo>,
        kind: AttributeKind,
        common: AttributeCommon,
    ) -> (r: Result<Attribute, Failure>)
        ensures
            match attribute_payload(constants.deep_view(), kind, common, buf_content(bytes)) {
                Ok(a) => r matches Ok(out) && out.model() == a,
                Err(e) => r matches Err(x) && x == e,
            },
        decreases buf_content(bytes).len(), 0nat,
    {
        let mut b = bytes;
        match kind {
            AttributeKind::Code => {
                let max_stack = read_u16(&mut b)?;
                let max_locals = read_u16(&mut b)?;
                let code_length = read_u32(&mut b)?;
                let code = read_bytes(&mut b, code_length as usize)?;
                let exception_table_length = read_u16(&mut b)?;
                let words = read_u16s(&mut b, 4 * (exception_table_length as usize))?;
                let exception_table = pack_exception_entries(&words);
                let attribute_count = read_u16(&mut b)?;
                let attribute_info = read_attributes(
                    &mut b,
                    constants,
                    attribute_count,
                    AttributeLocation::Code,
                )?;
                let ghost nested = attribute_info.deep_view();
                let out = Attribute::Code {
                    common,
                    max_stack,
                    max_locals,
                    code_length,
                    code,
                    exception_table_length,
                    exception_table,
                    attribute_count,
                    attribute_info,
                };
                proof {
                    match out.model() {
                        AttributeModel::Code { attribute_info: inner, .. } => {
                            assert(inner =~= nested);
                        },
                        _ => {},
                    }
                }
                Ok(out)
            },
            _ => Self::parse_flat(b, kind, common),
        }
    }

    /// Decodes the payload of an attribute that holds no attributes of its own.
    fn parse_flat(bytes: Bytes, kind: AttributeKind, common: AttributeCommon) -> (r: Result<
        Attribute,
        Failure,
    >)
        requires
            !(kind is Code),
        ensures
            forall|pool: Seq<PoolEntry>|
                match #[trigger] attribute_payload(pool, kind, common, buf_content(bytes)) {
                    Ok(a) => r matches Ok(out) && out.model() == a,
                    Err(e) => r matches Err(x) && x == e,
                },
    {
        let mut b = bytes;
        match kind {
            AttributeKind::ConstantValue => {
                let constantvalue_index = read_u16(&mut b)?;
                Ok(Attribute::ConstantValue { common, constantvalue_index })
            },
            AttributeKind::Code => Err(
                Failure { error: ClassError::TruncatedInput, left: buf_remaining(&b) },
            ),
            AttributeKind::StackMapTable => {
                let number_of_entries = read_u16(&mut b)?;
                let entries = read_stack_map_frames(&mut b, number_of_entries)?;
                Ok(Attribute::StackMapTable { common, number_of_entries, entries })
            },
            AttributeKind::Exceptions => {
                let number_of_exceptions = read_u16(&mut b)?;
                let exception_index_table = read_u16s(&mut b, number_of_exceptions as usize)?;
                Ok(Attribute::Exceptions { common, number_of_exceptions, exception_index_table })
            },
            AttributeKind::InnerClasses => {
                let number_of_classes = read_u16(&mut b)?;
                let words = read_u16s(&mut b, 4 * (number_of_classes as usize))?;
                let classes = pack_inner_class_entries(&words);
                Ok(Attribute::InnerClasses { common, number_of_classes, classes })
            },
            AttributeKind::EnclosingMethod => {
                let class_index = read_u16(&mut b)?;
                let method_index = read_u16(&mut b)?;
                Ok(Attribute::EnclosingMethod { common, class_index, method_index })
            },
            AttributeKind::Synthetic => Ok(Attribute::Synthetic { common }),
            AttributeKind::Signature => {
                let signature_index = read_u16(&mut b)?;
                Ok(Attribute::Signature { common, signature_index })
            },
            AttributeKind::SourceFile => {
                let sourcefile_index = read_u16(&mut b)?;
                Ok(Attribute::SourceFile { common, sourcefile_index })
            },
            AttributeKind::SourceDebugExtension => {
                let debug_extension = read_bytes(&mut b, common.attribute_length as usize)?;
                Ok(Attribute::SourceDebugExtension { common, debug_extension })
            },
            AttributeKind::LineNumberTable => {
                let line_number_table_length = read_u16(&mut b)?;
                let words = read_u16s(&mut b, 2 * (line_number_table_length as usize))?;
                let line_number_table = pack_line_number_entries(&words);
                Ok(
                    Attribute::LineNumberTable {
                        common,
                        line_number_table_length,
                        line_number_table,
                    },
                )
            },
            AttributeKind::LocalVariableTable => {
                let local_variable_table_length = read_u16(&mut b)?;
                let words = read_u16s(&mut b, 5 * (local_variable_table_length as usize))?;
                let local_variable_table = pack_local_variable_entries(&words);
                Ok(
                    Attribute::LocalVariableTable {
                        common,
                        local_variable_table_length,
                        local_variable_table,
                    },
                )
            },
            AttributeKind::LocalVariableTypeTable => {
                let local_variable_type_table_length = read_u16(&mut b)?;
                let words = read_u16s(&mut b, 5 * (local_variable_type_table_length as usize))?;
                let local_variable_type_table = pack_local_variable_type_entries(&words);
                Ok(
                    Attribute::LocalVariableTypeTable {
                        common,
                        local_variable_type_table_length,
                        local_variable_type_table,
                    },
                )
            },
            AttributeKind::Deprecated => Ok(Attribute::Deprecated { common }),
            AttributeKind::BootstrapMethods => {
                let num_bootstrap_methods = read_u16(&mut b)?;
                let bootstrap_methods = read_bootstrap_methods(&mut b, num_bootstrap_methods)?;
                Ok(Attribute::BootstrapMethods { common, num_bootstrap_methods, bootstrap_methods })
            },
            AttributeKind::NestHost => {
                let host_class_index = read_u16(&mut b)?;
                Ok(Attribute::NestHost { common, host_class_index })
            },
            AttributeKind::NestMembers => {
                let number_of_classes = read_u16(&mut b)?;
                let classes = read_u16s(&mut b, number_of_classes as usize)?;
                Ok(Attribute::NestMembers { common, number_of_classes, classes })
            },
        }
    }
}

/// Reads `count` attributes, each with its header, found at `location`.
#[verifier::loop_isolation(false)]
pub fn read_attributes(
    b: &mut Bytes,
    constants: &Vec<ConstantsPoolInfo>,
    count: u16,
    location: AttributeLocation,
) -> (r: Result<Vec<Attribute>, Failure>)
    ensures
        match attributes_at(
            constants.deep_view(),
            buf_content(*old(b)),
            count as nat,
            location,
        ) {
            Ok((attributes, rest)) => r matches Ok(out) && out.deep_view() == attributes
                && buf_content(*final(b)) == rest,
            Err(e) => r matches Err(x) && x == e,
        },
    decreases buf_content(*old(b)).len(), 2nat,
{
    let ghost s = buf_content(*b);
    let ghost pool = constants.deep_view();
    let total = buf_remaining(b);
    let mut out: Vec<Attribute> = Vec::new();
    let mut i: u16 = 0;
    assert(out.deep_view() + Seq::<AttributeModel>::empty() == Seq::<AttributeModel>::empty());
    while i < count
        invariant
            i <= count,
            buf_content(*b).len() <= s.len() == total,
            attributes_at(pool, s, count as nat, location) == (match attributes_at(
                pool,
                buf_content(*b),
                (count - i) as nat,
                location,
            ) {
                Ok((more, rest)) => Ok::<(Seq<AttributeModel>, Seq<u8>), Failure>(
                    (out.deep_view() + more, rest),
                ),
                Err(e) => Err(e),
            }),
        decreases count - i,
    {
        let ghost before = out.deep_view();
        let attribute_name_index = read_u16(b)?;
        let attribute_length = read_u32(b)?;
        let payload = read_buffer(b, attribute_length as usize)?;
        proof {
            lemma_attribute_bounds(
                pool,
                buf_content(payload),
                AttributeCommon { attribute_name_index, attribute_length },
                location,
            );
        }
        let a = match Attribute::parse(
            payload,
            constants,
            AttributeCommon { attribute_name_index, attribute_length },
            location,
        ) {
            Ok(a) => a,
            Err(e) => {
                return Err(e.seen_from(buf_remaining(b)));
            },
        };
        let ghost model = a.model();
        out.push(a);
        proof {
            assert(out.deep_view() == before.push(model));
            match attributes_at(pool, buf_content(*b), (count - i - 1) as nat, location) {
                Ok((more, rest)) => {
                    assert(before + (seq![model] + more) == out.deep_view() + more);
                },
                Err(e) => {},
            }
        }
        i = i + 1;
    }
    assert(out.deep_view() + Seq::<AttributeModel>::empty() == out.deep_view());
    Ok(out)
}

} // verus!
