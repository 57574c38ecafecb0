//! The parsed form of a class unit: its constant pool, fields and methods.

use crate::buffer::buf_content;
use crate::buffer::buf_remaining;
use crate::buffer::text_is;
use crate::class::attribute::attributes_at;
use crate::class::attribute::lemma_attributes_bounds;
use crate::class::attribute::pool_text;
use crate::class::attribute::read_attributes;
use crate::class::attribute::Attribute;
use crate::class::attribute::AttributeLocation;
use crate::class::attribute::AttributeModel;
use crate::class::classfile::decode_text;
use crate::class::classfile::lemma_text_failure_bound;
use crate::class::classfile::read_bytes;
use crate::class::classfile::read_u16;
use crate::class::classfile::read_u16s;
use crate::class::classfile::read_u32;
use crate::class::classfile::read_u8;
use crate::class::classfile::take_bytes;
use crate::class::classfile::take_u16;
use crate::class::classfile::take_u16s;
use crate::class::classfile::take_u32;
use crate::class::classfile::take_u8;
use crate::class::classfile::text_from;
use crate::class::classfile::ClassError;
use crate::class::classfile::DecodeFailure;
use crate::class::classfile::Failure;
use crate::class::frame::BytecodeFrame;
use crate::class::frame::FrameModel;
use crate::class::method::descriptor_of;
use crate::class::method::Argument;
use crate::class::method::Descriptor;
use crate::class::method::MethodType;
use crate::class::method::Slot;
use bytes::Bytes;
use vstd::prelude::*;

verus! {

/// One entry of the constant pool. `Dummy` fills the index 0 and the index
/// behind a `Long` or a `Double`, which no reference may use.
#[derive(Debug)]
#[allow(inconsistent_fields)]
pub enum ConstantsPoolInfo {
    Utf8 { length: u16, bytes: String },
    Integer { bytes: u32 },
    Float { bytes: u32 },
    Long { high_bytes: u32, low_bytes: u32 },
    Double { high_bytes: u32, low_bytes: u32 },
    Class { name_index: u16 },
    String { string_index: u16 },
    FieldRef { class_index: u16, name_and_type_index: u16 },
    MethodRef { class_index: u16, name_and_type_index: u16 },
    InterfaceMethodRef { class_index: u16, name_and_type_index: u16 },
    NameAndType { name_index: u16, descriptor_index: u16 },
    MethodHandle { reference_kind: u8, reference_index: u16 },
    MethodType { descriptor_index: u16 },
    Dynamic { bootstrap_method_attr_index: u16, name_and_type_index: u16 },
    InvokeDynamic { bootstrap_method_attr_index: u16, name_and_type_index: u16 },
    Module { name_index: u16 },
    Package { name_index: u16 },
    Dummy,
}

/// The mathematical value of a [`ConstantsPoolInfo`].
#[allow(inconsistent_fields)]
pub enum PoolEntry {
    Utf8 { length: u16, bytes: Seq<char> },
    Integer { bytes: u32 },
    Float { bytes: u32 },
    Long { high_bytes: u32, low_bytes: u32 },
    Double { high_bytes: u32, low_bytes: u32 },
    Class { name_index: u16 },
    String { string_index: u16 },
    FieldRef { class_index: u16, name_and_type_index: u16 },
    MethodRef { class_index: u16, name_and_type_index: u16 },
    InterfaceMethodRef { class_index: u16, name_and_type_index: u16 },
    NameAndType { name_index: u16, descriptor_index: u16 },
    MethodHandle { reference_kind: u8, reference_index: u16 },
    MethodType { descriptor_index: u16 },
    Dynamic { bootstrap_method_attr_index: u16, name_and_type_index: u16 },
    InvokeDynamic { bootstrap_method_attr_index: u16, name_and_type_index: u16 },
    Module { name_index: u16 },
    Package { name_index: u16 },
    Dummy,
}

impl View for ConstantsPoolInfo {
    type V = PoolEntry;

    open spec fn view(&self) -> PoolEntry {
        match self {
            ConstantsPoolInfo::Utf8 { length, bytes } => PoolEntry::Utf8 {
                length: *length,
                bytes: bytes@,
            },
            ConstantsPoolInfo::Integer { bytes } => PoolEntry::Integer { bytes: *bytes },
            ConstantsPoolInfo::Float { bytes } => PoolEntry::Float { bytes: *bytes },
            ConstantsPoolInfo::Long { high_bytes, low_bytes } => PoolEntry::Long {
                high_bytes: *high_bytes,
                low_bytes: *low_bytes,
            },
            ConstantsPoolInfo::Double { high_bytes, low_bytes } => PoolEntry::Double {
                high_bytes: *high_bytes,
                low_bytes: *low_bytes,
            },
            ConstantsPoolInfo::Class { name_index } => PoolEntry::Class { name_index: *name_index },
            ConstantsPoolInfo::String { string_index } => PoolEntry::String {
                string_index: *string_index,
            },
            ConstantsPoolInfo::FieldRef { class_index, name_and_type_index } => PoolEntry::FieldRef {
                class_index: *class_index,
                name_and_type_index: *name_and_type_index,
            },
            ConstantsPoolInfo::MethodRef {
                class_index,
                name_and_type_index,
            } => PoolEntry::MethodRef {
                class_index: *class_index,
                name_and_type_index: *name_and_type_index,
            },
            ConstantsPoolInfo::InterfaceMethodRef {
                class_index,
                name_and_type_index,
            } => PoolEntry::InterfaceMethodRef {
                class_index: *class_index,
                name_and_type_index: *name_and_type_index,
            },
            ConstantsPoolInfo::NameAndType {
                name_index,
                descriptor_index,
            } => PoolEntry::NameAndType {
                name_index: *name_index,
                descriptor_index: *descriptor_index,
            },
            ConstantsPoolInfo::MethodHandle {
                reference_kind,
                reference_index,
            } => PoolEntry::MethodHandle {
                reference_kind: *reference_kind,
                reference_index: *reference_index,
            },
            ConstantsPoolInfo::MethodType { descriptor_index } => PoolEntry::MethodType {
                descriptor_index: *descriptor_index,
            },
            ConstantsPoolInfo::Dynamic {
                bootstrap_method_attr_index,
                name_and_type_index,
            } => PoolEntry::Dynamic {
                bootstrap_method_attr_index: *bootstrap_method_attr_index,
                name_and_type_index: *name_and_type_index,
            },
            ConstantsPoolInfo::InvokeDynamic {
                bootstrap_method_attr_index,
                name_and_type_index,
            } => PoolEntry::InvokeDynamic {
                bootstrap_method_attr_index: *bootstrap_method_attr_index,
                name_and_type_index: *name_and_type_index,
            },
            ConstantsPoolInfo::Module { name_index } => PoolEntry::Module {
                name_index: *name_index,
            },
            ConstantsPoolInfo::Package { name_index } => PoolEntry::Package {
                name_index: *name_index,
            },
            ConstantsPoolInfo::Dummy => PoolEntry::Dummy,
        }
    }
}

impl DeepView for ConstantsPoolInfo {
    type V = PoolEntry;

    open spec fn deep_view(&self) -> PoolEntry {
        self@
    }
}

impl Clone for ConstantsPoolInfo {
    fn clone(&self) -> (r: Self)
        ensures
            r@ == self@,
    {
        match self {
            ConstantsPoolInfo::Utf8 { length, bytes } => ConstantsPoolInfo::Utf8 {
                length: *length,
                bytes: bytes.clone(),
            },
            ConstantsPoolInfo::Integer { bytes } => ConstantsPoolInfo::Integer { bytes: *bytes },
            ConstantsPoolInfo::Float { bytes } => ConstantsPoolInfo::Float { bytes: *bytes },
            ConstantsPoolInfo::Long { high_bytes, low_bytes } => ConstantsPoolInfo::Long {
                high_bytes: *high_bytes,
                low_bytes: *low_bytes,
            },
            ConstantsPoolInfo::Double { high_bytes, low_bytes } => ConstantsPoolInfo::Double {
                high_bytes: *high_bytes,
                low_bytes: *low_bytes,
            },
            ConstantsPoolInfo::Class { name_index } => ConstantsPoolInfo::Class {
                name_index: *name_index,
            },
            ConstantsPoolInfo::String { string_index } => ConstantsPoolInfo::String {
                string_index: *string_index,
            },
            ConstantsPoolInfo::FieldRef {
                class_index,
                name_and_type_index,
            } => ConstantsPoolInfo::FieldRef {
                class_index: *class_index,
                name_and_type_index: *name_and_type_index,
            },
            ConstantsPoolInfo::MethodRef {
                class_index,
                name_and_type_index,
            } => ConstantsPoolInfo::MethodRef {
                class_index: *class_index,
                name_and_type_index: *name_and_type_index,
            },
            ConstantsPoolInfo::InterfaceMethodRef {
                class_index,
                name_and_type_index,
            } => ConstantsPoolInfo::InterfaceMethodRef {
                class_index: *class_index,
                name_and_type_index: *name_and_type_index,
            },
            ConstantsPoolInfo::NameAndType {
                name_index,
                descriptor_index,
            } => ConstantsPoolInfo::NameAndType {
                name_index: *name_index,
                descriptor_index: *descriptor_index,
            },
            ConstantsPoolInfo::MethodHandle {
                reference_kind,
                reference_index,
            } => ConstantsPoolInfo::MethodHandle {
                reference_kind: *reference_kind,
                reference_index: *reference_index,
            },
            ConstantsPoolInfo::MethodType { descriptor_index } => ConstantsPoolInfo::MethodType {
                descriptor_index: *descriptor_index,
            },
            ConstantsPoolInfo::Dynamic {
                bootstrap_method_attr_index,
                name_and_type_index,
            } => ConstantsPoolInfo::Dynamic {
                bootstrap_method_attr_index: *bootstrap_method_attr_index,
                name_and_type_index: *name_and_type_index,
            },
            ConstantsPoolInfo::InvokeDynamic {
                bootstrap_method_attr_index,
                name_and_type_index,
            } => ConstantsPoolInfo::InvokeDynamic {
                bootstrap_method_attr_index: *bootstrap_method_attr_index,
                name_and_type_index: *name_and_type_index,
            },
            ConstantsPoolInfo::Module { name_index } => ConstantsPoolInfo::Module {
                name_index: *name_index,
            },
            ConstantsPoolInfo::Package { name_index } => ConstantsPoolInfo::Package {
                name_index: *name_index,
            },
            ConstantsPoolInfo::Dummy => ConstantsPoolInfo::Dummy,
        }
    }
}

impl PoolEntry {
    /// Whether the entry takes two indices of the pool: a `Long` or a `Double`.
    pub open spec fn is_wide(self) -> bool {
        self is Long || self is Double
    }
}

/// The pool entry that starts `s`, and what follows it. The first byte is the
/// tag; the tags are 1, 3 to 12 and 15 to 20.
pub open spec fn pool_entry_at(s: Seq<u8>) -> Result<(PoolEntry, Seq<u8>), Failure> {
    match take_u8(s) {
        Err(e) => Err(e),
        Ok((tag, body)) => if tag == 1 {
            match take_u16(body) {
                Err(e) => Err(e),
                Ok((length, after)) => match take_bytes(after, length as nat) {
                    Err(e) => Err(e),
                    Ok((data, rest)) => match text_from(data, 0) {
                        Err(e) => Err(e.within(rest)),
                        Ok(bytes) => Ok((PoolEntry::Utf8 { length, bytes }, rest)),
                    },
                },
            }
        } else if tag == 3 || tag == 4 {
            match take_u32(body) {
                Err(e) => Err(e),
                Ok((bytes, rest)) => Ok(
                    (
                        if tag == 3 {
                            PoolEntry::Integer { bytes }
                        } else {
                            PoolEntry::Float { bytes }
                        },
                        rest,
                    ),
                ),
            }
        } else if tag == 5 || tag == 6 {
            match take_u32(body) {
                Err(e) => Err(e),
                Ok((high_bytes, after)) => match take_u32(after) {
                    Err(e) => Err(e),
                    Ok((low_bytes, rest)) => Ok(
                        (
                            if tag == 5 {
                                PoolEntry::Long { high_bytes, low_bytes }
                            } else {
                                PoolEntry::Double { high_bytes, low_bytes }
                            },
                            rest,
                        ),
                    ),
                },
            }
        } else if tag == 7 || tag == 8 || tag == 16 || tag == 19 || tag == 20 {
            match take_u16(body) {
                Err(e) => Err(e),
                Ok((index, rest)) => Ok(
                    (
                        if tag == 7 {
                            PoolEntry::Class { name_index: index }
                        } else if tag == 8 {
                            PoolEntry::String { string_index: index }
                        } else if tag == 16 {
                            PoolEntry::MethodType { descriptor_index: index }
                        } else if tag == 19 {
                            PoolEntry::Module { name_index: index }
                        } else {
                            PoolEntry::Package { name_index: index }
                        },
                        rest,
                    ),
                ),
            }
        } else if tag == 9 || tag == 10 || tag == 11 || tag == 12 || tag == 17 || tag == 18 {
            match take_u16(body) {
                Err(e) => Err(e),
                Ok((first, after)) => match take_u16(after) {
                    Err(e) => Err(e),
                    Ok((second, rest)) => Ok(
                        (
                            if tag == 9 {
                                PoolEntry::FieldRef {
                                    class_index: first,
                                    name_and_type_index: second,
                                }
                            } else if tag == 10 {
                                PoolEntry::MethodRef {
                                    class_index: first,
                                    name_and_type_index: second,
                                }
                            } else if tag == 11 {
                                PoolEntry::InterfaceMethodRef {
                                    class_index: first,
                                    name_and_type_index: second,
                                }
                            } else if tag == 12 {
                                PoolEntry::NameAndType {
                                    name_index: first,
                                    descriptor_index: second,
                                }
                            } else if tag == 17 {
                                PoolEntry::Dynamic {
                                    bootstrap_method_attr_index: first,
                                    name_and_type_index: second,
                                }
                            } else {
                                PoolEntry::InvokeDynamic {
                                    bootstrap_method_attr_index: first,
                                    name_and_type_index: second,
                                }
                            },
                            rest,
                        ),
                    ),
                },
            }
        } else if tag == 15 {
            match take_u8(body) {
                Err(e) => Err(e),
                Ok((reference_kind, after)) => match take_u16(after) {
                    Err(e) => Err(e),
                    Ok((reference_index, rest)) => Ok(
                        (PoolEntry::MethodHandle { reference_kind, reference_index }, rest),
                    ),
                },
            }
        } else {
            Err(Failure::at(ClassError::NonexistentConstantPoolTag(tag), s))
        },
    }
}

/// The entries that fill `slots` indices of the pool, read from the start of
/// `s`, and what follows them. A `Long` or a `Double` fills two indices, the
/// second with `Dummy`, unless only one index is left.
pub open spec fn pool_entries_at(s: Seq<u8>, slots: nat) -> Result<
    (Seq<PoolEntry>, Seq<u8>),
    Failure,
>
    decreases slots,
{
    if slots == 0 {
        Ok((Seq::<PoolEntry>::empty(), s))
    } else {
        match pool_entry_at(s) {
            Err(e) => Err(e),
            Ok((entry, after)) => if entry.is_wide() && slots >= 2 {
                match pool_entries_at(after, (slots - 2) as nat) {
                    Err(e) => Err(e),
                    Ok((more, rest)) => Ok((seq![entry, PoolEntry::Dummy] + more, rest)),
                }
            } else {
                match pool_entries_at(after, (slots - 1) as nat) {
                    Err(e) => Err(e),
                    Ok((more, rest)) => Ok((seq![entry] + more, rest)),
                }
            },
        }
    }
}

/// The constant pool of the declared size `count`, read from the start of
/// `s`, and what follows it. The index 0 holds `Dummy`; the entries fill the
/// indices from 1 up to `count`, not included.
pub open spec fn pool_at(s: Seq<u8>, count: u16) -> Result<(Seq<PoolEntry>, Seq<u8>), Failure> {
    let slots = if count == 0 {
        0nat
    } else {
        (count - 1) as nat
    };
    match pool_entries_at(s, slots) {
        Err(e) => Err(e),
        Ok((entries, rest)) => Ok((seq![PoolEntry::Dummy] + entries, rest)),
    }
}

/// A pool entry is read from the front of the bytes: what follows it is no
/// longer than what was there, and a failure lies in what was there.
pub proof fn lemma_pool_entry_bounds(s: Seq<u8>)
    requires
        s.len() <= usize::MAX,
    ensures
        match pool_entry_at(s) {
            Ok((_, rest)) => rest.len() < s.len(),
            Err(e) => e.left <= s.len(),
        },
{
    if s.len() >= 1 && s[0] == 1 {
        let body = s.skip(1);
        if body.len() >= 2 {
            let after = body.skip(2);
            let length = take_u16(body)->Ok_0.0;
            if after.len() >= length {
                lemma_text_failure_bound(after.take(length as int), 0);
            }
        }
    }
}

/// The same of the entries of a pool.
pub proof fn lemma_pool_entries_bounds(s: Seq<u8>, slots: nat)
    requires
        s.len() <= usize::MAX,
    ensures
        match pool_entries_at(s, slots) {
            Ok((_, rest)) => rest.len() <= s.len(),
            Err(e) => e.left <= s.len(),
        },
    decreases slots,
{
    if slots > 0 {
        lemma_pool_entry_bounds(s);
        match pool_entry_at(s) {
            Ok((entry, after)) => {
                if entry.is_wide() && slots >= 2 {
                    lemma_pool_entries_bounds(after, (slots - 2) as nat);
                } else {
                    lemma_pool_entries_bounds(after, (slots - 1) as nat);
                }
            },
            Err(_) => {},
        }
    }
}

/// The entries of a pool fill exactly the indices they were read for.
pub proof fn lemma_pool_entries_len(s: Seq<u8>, slots: nat)
    ensures
        pool_entries_at(s, slots) matches Ok((entries, _)) ==> entries.len() == slots,
    decreases slots,
{
    if slots > 0 {
        match pool_entry_at(s) {
            Err(e) => {},
            Ok((entry, after)) => {
                if entry.is_wide() && slots >= 2 {
                    lemma_pool_entries_len(after, (slots - 2) as nat);
                } else {
                    lemma_pool_entries_len(after, (slots - 1) as nat);
                }
            },
        }
    }
}

/// Reads one pool entry.
pub fn read_pool_entry(b: &mut Bytes) -> (r: Result<ConstantsPoolInfo, Failure>)
    ensures
        match pool_entry_at(buf_content(*old(b))) {
            Ok((entry, rest)) => r matches Ok(out) && out@ == entry && buf_content(*final(b))
                == rest,
            Err(e) => r matches Err(x) && x == e,
        },
{
    let left = buf_remaining(b);
    let tag = read_u8(b)?;
    if tag == 1 {
        let length = read_u16(b)?;
        let data = read_bytes(b, length as usize)?;
        proof {
            lemma_text_failure_bound(data@, 0);
        }
        let bytes = match decode_text(&data) {
            Ok(bytes) => bytes,
            Err(e) => {
                return Err(e.seen_from(buf_remaining(b)));
            },
        };
        Ok(ConstantsPoolInfo::Utf8 { length, bytes })
    } else if tag == 3 {
        let bytes = read_u32(b)?;
        Ok(ConstantsPoolInfo::Integer { bytes })
    } else if tag == 4 {
        let bytes = read_u32(b)?;
        Ok(ConstantsPoolInfo::Float { bytes })
    } else if tag == 5 {
        let high_bytes = read_u32(b)?;
        let low_bytes = read_u32(b)?;
        Ok(ConstantsPoolInfo::Long { high_bytes, low_bytes })
    } else if tag == 6 {
        let high_bytes = read_u32(b)?;
        let low_bytes = read_u32(b)?;
        Ok(ConstantsPoolInfo::Double { high_bytes, low_bytes })
    } else if tag == 7 {
        let name_index = read_u16(b)?;
        Ok(ConstantsPoolInfo::Class { name_index })
    } else if tag == 8 {
        let string_index = read_u16(b)?;
        Ok(ConstantsPoolInfo::String { string_index })
    } else if tag == 9 {
        let class_index = read_u16(b)?;
        let name_and_type_index = read_u16(b)?;
        Ok(ConstantsPoolInfo::FieldRef { class_index, name_and_type_index })
    } else if tag == 10 {
        let class_index = read_u16(b)?;
        let name_and_type_index = read_u16(b)?;
        Ok(ConstantsPoolInfo::MethodRef { class_index, name_and_type_index })
    } else if tag == 11 {
        let class_index = read_u16(b)?;
        let name_and_type_index = read_u16(b)?;
        Ok(ConstantsPoolInfo::InterfaceMethodRef { class_index, name_and_type_index })
    } else if tag == 12 {
        let name_index = read_u16(b)?;
        let descriptor_index = read_u16(b)?;
        Ok(ConstantsPoolInfo::NameAndType { name_index, descriptor_index })
    } else if tag == 15 {
        let reference_kind = read_u8(b)?;
        let reference_index = read_u16(b)?;
        Ok(ConstantsPoolInfo::MethodHandle { reference_kind, reference_index })
    } else if tag == 16 {
        let descriptor_index = read_u16(b)?;
        Ok(ConstantsPoolInfo::MethodType { descriptor_index })
    } else if tag == 17 {
        let bootstrap_method_attr_index = read_u16(b)?;
        let name_and_type_index = read_u16(b)?;
        Ok(ConstantsPoolInfo::Dynamic { bootstrap_method_attr_index, name_and_type_index })
    } else if tag == 18 {
        let bootstrap_method_attr_index = read_u16(b)?;
        let name_and_type_index = read_u16(b)?;
        Ok(ConstantsPoolInfo::InvokeDynamic { bootstrap_method_attr_index, name_and_type_index })
    } else if tag == 19 {
        let name_index = read_u16(b)?;
        Ok(ConstantsPoolInfo::Module { name_index })
    } else if tag == 20 {
        let name_index = read_u16(b)?;
        Ok(ConstantsPoolInfo::Package { name_index })
    } else {
        Err(Failure { error: ClassError::NonexistentConstantPoolTag(tag), left })
    }
}

/// Whether an entry takes two indices of the pool.
fn is_wide(entry: &ConstantsPoolInfo) -> (r: bool)
    ensures
        r == entry@.is_wide(),
{
    match entry {
        ConstantsPoolInfo::Long { .. } => true,
        ConstantsPoolInfo::Double { .. } => true,
        _ => false,
    }
}

/// Reads the constant pool of the declared size `count`. On success the pool
/// has one entry for each index below `count`, and at least the one at index 0.
#[verifier::loop_isolation(false)]
pub fn read_pool(b: &mut Bytes, count: u16) -> (r: Result<Vec<ConstantsPoolInfo>, Failure>)
    ensures
        match pool_at(buf_content(*old(b)), count) {
            Ok((pool, rest)) => r matches Ok(out) && out.deep_view() == pool && buf_content(
                *final(b),
            ) == rest,
            Err(e) => r matches Err(x) && x == e,
        },
        r matches Ok(out) ==> out.len() == (if count == 0 {
            1
        } else {
            count as int
        }),
{
    let ghost s = buf_content(*b);
    let total: usize = if count == 0 {
        1
    } else {
        count as usize
    };
    let mut pool: Vec<ConstantsPoolInfo> = Vec::new();
    pool.push(ConstantsPoolInfo::Dummy);
    assert(pool.deep_view().skip(1) == Seq::<PoolEntry>::empty());
    while pool.len() < total
        invariant
            1 <= pool.len() <= total,
            total <= 0xffff,
            pool.deep_view()[0] == PoolEntry::Dummy,
            pool_entries_at(s, (total - 1) as nat) == (match pool_entries_at(
                buf_content(*b),
                (total - pool.len()) as nat,
            ) {
                Ok((more, rest)) => Ok::<(Seq<PoolEntry>, Seq<u8>), Failure>(
                    (pool.deep_view().skip(1) + more, rest),
                ),
                Err(e) => Err(e),
            }),
        decreases total - pool.len(),
    {
        let ghost before = pool.deep_view();
        let ghost slots = (total - pool.len()) as nat;
        let result = read_pool_entry(b);
        match result {
            Err(e) => {
                return Err(e);
            },
            Ok(entry) => {
                let wide = is_wide(&entry);
                let ghost model = entry@;
                pool.push(entry);
                if wide && pool.len() < total {
                    pool.push(ConstantsPoolInfo::Dummy);
                    proof {
                        assert(pool.deep_view() == before + seq![model, PoolEntry::Dummy]);
                        match pool_entries_at(buf_content(*b), (slots - 2) as nat) {
                            Ok((more, rest)) => {
                                assert(before.skip(1) + (seq![model, PoolEntry::Dummy] + more)
                                    == pool.deep_view().skip(1) + more);
                            },
                            Err(e) => {},
                        }
                    }
                } else {
                    proof {
                        assert(pool.deep_view() == before + seq![model]);
                        match pool_entries_at(buf_content(*b), (slots - 1) as nat) {
                            Ok((more, rest)) => {
                                assert(before.skip(1) + (seq![model] + more)
                                    == pool.deep_view().skip(1) + more);
                            },
                            Err(e) => {},
                        }
                    }
                }
            },
        }
    }
    proof {
        let d = pool.deep_view();
        assert(d.skip(1) + Seq::<PoolEntry>::empty() == d.skip(1));
        assert(seq![PoolEntry::Dummy] + d.skip(1) == d);
    }
    Ok(pool)
}

/// One field of a class: its flags, the pool indices of its name and of its
/// descriptor, and its attributes.
#[derive(Debug)]
pub struct FieldInfo {
    pub access_flags: u16,
    pub name_index: u16,
    pub descriptor_index: u16,
    pub attribute_count: u16,
    pub attribute_info: Vec<Attribute>,
}

/// One method of a class: its flags, the pool indices of its name and of its
/// descriptor, and its attributes.
#[derive(Debug)]
pub struct MethodInfo {
    pub access_flags: u16,
    pub name_index: u16,
    pub descriptor_index: u16,
    pub attribute_count: u16,
    pub attribute_info: Vec<Attribute>,
}

/// The mathematical value of a [`FieldInfo`] or a [`MethodInfo`].
pub struct MemberModel {
    pub access_flags: u16,
    pub name_index: u16,
    pub descriptor_index: u16,
    pub attribute_count: u16,
    pub attribute_info: Seq<AttributeModel>,
}

impl View for FieldInfo {
    type V = MemberModel;

    open spec fn view(&self) -> MemberModel {
        MemberModel {
            access_flags: self.access_flags,
            name_index: self.name_index,
            descriptor_index: self.descriptor_index,
            attribute_count: self.attribute_count,
            attribute_info: self.attribute_info.deep_view(),
        }
    }
}

impl DeepView for FieldInfo {
    type V = MemberModel;

    open spec fn deep_view(&self) -> MemberModel {
        self@
    }
}

impl View for MethodInfo {
    type V = MemberModel;

    open spec fn view(&self) -> MemberModel {
        MemberModel {
            access_flags: self.access_flags,
            name_index: self.name_index,
            descriptor_index: self.descriptor_index,
            attribute_count: self.attribute_count,
            attribute_info: self.attribute_info.deep_view(),
        }
    }
}

impl DeepView for MethodInfo {
    type V = MemberModel;

    open spec fn deep_view(&self) -> MemberModel {
        self@
    }
}

/// The field or method that starts `s`, and what follows it.
pub open spec fn member_at(pool: Seq<PoolEntry>, s: Seq<u8>, location: AttributeLocation) -> Result<
    (MemberModel, Seq<u8>),
    Failure,
> {
    match take_u16(s) {
        Err(e) => Err(e),
        Ok((access_flags, s1)) => match take_u16(s1) {
            Err(e) => Err(e),
            Ok((name_index, s2)) => match take_u16(s2) {
                Err(e) => Err(e),
                Ok((descriptor_index, s3)) => match take_u16(s3) {
                    Err(e) => Err(e),
                    Ok((attribute_count, s4)) => match attributes_at(
                        pool,
                        s4,
                        attribute_count as nat,
                        location,
                    ) {
                        Err(e) => Err(e),
                        Ok((attribute_info, rest)) => Ok(
                            (
                                MemberModel {
                                    access_flags,
                                    name_index,
                                    descriptor_index,
                                    attribute_count,
                                    attribute_info,
                                },
                                rest,
                            ),
                        ),
                    },
                },
            },
        },
    }
}

/// The `n` fields or methods that start `s`, and what follows them.
pub open spec fn members_at(
    pool: Seq<PoolEntry>,
    s: Seq<u8>,
    n: nat,
    location: AttributeLocation,
) -> Result<(Seq<MemberModel>, Seq<u8>), Failure>
    decreases n,
{
    if n == 0 {
        Ok((Seq::<MemberModel>::empty(), s))
    } else {
        match member_at(pool, s, location) {
            Err(e) => Err(e),
            Ok((first, after)) => match members_at(pool, after, (n - 1) as nat, location) {
                Err(e) => Err(e),
                Ok((more, rest)) => Ok((seq![first] + more, rest)),
            },
        }
    }
}

/// Fields and methods are read from the front of the bytes: what follows
/// them is no longer than what was there, and a failure lies in what was there.
pub proof fn lemma_members_bounds(
    pool: Seq<PoolEntry>,
    s: Seq<u8>,
    n: nat,
    location: AttributeLocation,
)
    requires
        s.len() <= usize::MAX,
    ensures
        match members_at(pool, s, n, location) {
            Ok((_, rest)) => rest.len() <= s.len(),
            Err(e) => e.left <= s.len(),
        },
        match member_at(pool, s, location) {
            Ok((_, rest)) => rest.len() <= s.len(),
            Err(e) => e.left <= s.len(),
        },
    decreases n,
{
    if s.len() >= 8 {
        let s4 = s.skip(2).skip(2).skip(2).skip(2);
        let count = take_u16(s.skip(2).skip(2).skip(2))->Ok_0.0;
        lemma_attributes_bounds(pool, s4, count as nat, location);
    }
    if n > 0 {
        match member_at(pool, s, location) {
            Ok((_, after)) => {
                lemma_members_bounds(pool, after, (n - 1) as nat, location);
            },
            Err(_) => {},
        }
    }
}

/// Reads one field.
pub fn read_field(b: &mut Bytes, constants: &Vec<ConstantsPoolInfo>) -> (r: Result<
    FieldInfo,
    Failure,
>)
    ensures
        match member_at(constants.deep_view(), buf_content(*old(b)), AttributeLocation::FieldInfo) {
            Ok((m, rest)) => r matches Ok(out) && out@ == m && buf_content(*final(b)) == rest,
            Err(e) => r matches Err(x) && x == e,
        },
{
    let access_flags = read_u16(b)?;
    let name_index = read_u16(b)?;
    let descriptor_index = read_u16(b)?;
    let attribute_count = read_u16(b)?;
    let attribute_info = read_attributes(
        b,
        constants,
        attribute_count,
        AttributeLocation::FieldInfo,
    )?;
    Ok(FieldInfo { access_flags, name_index, descriptor_index, attribute_count, attribute_info })
}

/// Reads one method.
pub fn read_method(b: &mut Bytes, constants: &Vec<ConstantsPoolInfo>) -> (r: Result<
    MethodInfo,
    Failure,
>)
    ensures
        match member_at(
            constants.deep_view(),
            buf_content(*old(b)),
            AttributeLocation::MethodInfo,
        ) {
            Ok((m, rest)) => r matches Ok(out) && out@ == m && buf_content(*final(b)) == rest,
            Err(e) => r matches Err(x) && x == e,
        },
{
    let access_flags = read_u16(b)?;
    let name_index = read_u16(b)?;
    let descriptor_index = read_u16(b)?;
    let attribute_count = read_u16(b)?;
    let attribute_info = read_attributes(
        b,
        constants,
        attribute_count,
        AttributeLocation::MethodInfo,
    )?;
    Ok(MethodInfo { access_flags, name_index, descriptor_index, attribute_count, attribute_info })
}

/// Reads `n` fields.
#[verifier::loop_isolation(false)]
pub fn read_fields(b: &mut Bytes, constants: &Vec<ConstantsPoolInfo>, n: u16) -> (r: Result<
    Vec<FieldInfo>,
    Failure,
>)
    ensures
        match members_at(
            constants.deep_view(),
            buf_content(*old(b)),
            n as nat,
            AttributeLocation::FieldInfo,
        ) {
            Ok((members, rest)) => r matches Ok(out) && out.deep_view() == members && buf_content(
                *final(b),
            ) == rest,
            Err(e) => r matches Err(x) && x == e,
        },
{
    let ghost s = buf_content(*b);
    let ghost pool = constants.deep_view();
    let mut out: Vec<FieldInfo> = Vec::new();
    let mut i: u16 = 0;
    assert(out.deep_view() + Seq::<MemberModel>::empty() == Seq::<MemberModel>::empty());
    while i < n
        invariant
            i <= n,
            members_at(pool, s, n as nat, AttributeLocation::FieldInfo) == (match members_at(
                pool,
                buf_content(*b),
                (n - i) as nat,
                AttributeLocation::FieldInfo,
            ) {
                Ok((more, rest)) => Ok::<(Seq<MemberModel>, Seq<u8>), Failure>(
                    (out.deep_view() + more, rest),
                ),
                Err(e) => Err(e),
            }),
        decreases n - i,
    {
        let ghost before = out.deep_view();
        let f = read_field(b, constants)?;
        let ghost model = f@;
        out.push(f);
        proof {
            assert(out.deep_view() == before.push(model));
            match members_at(
                pool,
                buf_content(*b),
                (n - i - 1) as nat,
                AttributeLocation::FieldInfo,
            ) {
                Ok((more, rest)) => {
                    assert(before + (seq![model] + more) == out.deep_view() + more);
                },
                Err(e) => {},
            }
        }
        i = i + 1;
    }
    assert(out.deep_view() + Seq::<MemberModel>::empty() == out.deep_view());
    Ok(out)
}

/// Reads `n` methods.
#[verifier::loop_isolation(false)]
pub fn read_methods(b: &mut Bytes, constants: &Vec<ConstantsPoolInfo>, n: u16) -> (r: Result<
    Vec<MethodInfo>,
    Failure,
>)
    ensures
        match members_at(
            constants.deep_view(),
            buf_content(*old(b)),
            n as nat,
            AttributeLocation::MethodInfo,
        ) {
            Ok((members, rest)) => r matches Ok(out) && out.deep_view() == members && buf_content(
                *final(b),
            ) == rest,
            Err(e) => r matches Err(x) && x == e,
        },
{
    let ghost s = buf_content(*b);
    let ghost pool = constants.deep_view();
    let mut out: Vec<MethodInfo> = Vec::new();
    let mut i: u16 = 0;
    assert(out.deep_view() + Seq::<MemberModel>::empty() == Seq::<MemberModel>::empty());
    while i < n
        invariant
            i <= n,
            members_at(pool, s, n as nat, AttributeLocation::MethodInfo) == (match members_at(
                pool,
                buf_content(*b),
                (n - i) as nat,
                AttributeLocation::MethodInfo,
            ) {
                Ok((more, rest)) => Ok::<(Seq<MemberModel>, Seq<u8>), Failure>(
                    (out.deep_view() + more, rest),
                ),
                Err(e) => Err(e),
            }),
        decreases n - i,
    {
        let ghost before = out.deep_view();
        let m = read_method(b, constants)?;
        let ghost model = m@;
        out.push(m);
        proof {
            assert(out.deep_view() == before.push(model));
            match members_at(
                pool,
                buf_content(*b),
                (n - i - 1) as nat,
                AttributeLocation::MethodInfo,
            ) {
                Ok((more, rest)) => {
                    assert(before + (seq![model] + more) == out.deep_view() + more);
                },
                Err(e) => {},
            }
        }
        i = i + 1;
    }
    assert(out.deep_view() + Seq::<MemberModel>::empty() == out.deep_view());
    Ok(out)
}

/// A class unit: what a class file holds, and the handle that the heap gave
/// the class when it took it in.
#[derive(Debug)]
pub struct ClassFile {
    pub magic: u32,
    pub minor: u16,
    pub major: u16,
    pub constant_count: u16,
    pub constant_pool: Vec<ConstantsPoolInfo>,
    pub access_flags: u16,
    pub this_class: u16,
    pub super_class: u16,
    pub interfaces_count: u16,
    pub interfaces: Vec<u16>,
    pub fields_count: u16,
    pub fields: Vec<FieldInfo>,
    pub methods_count: u16,
    pub methods: Vec<MethodInfo>,
    pub attribute_count: u16,
    pub attributes: Vec<Attribute>,
    pub handle: Option<u32>,
}

/// The mathematical value of a [`ClassFile`].
pub struct ClassModel {
    pub magic: u32,
    pub minor: u16,
    pub major: u16,
    pub constant_count: u16,
    pub constant_pool: Seq<PoolEntry>,
    pub access_flags: u16,
    pub this_class: u16,
    pub super_class: u16,
    pub interfaces_count: u16,
    pub interfaces: Seq<u16>,
    pub fields_count: u16,
    pub fields: Seq<MemberModel>,
    pub methods_count: u16,
    pub methods: Seq<MemberModel>,
    pub attribute_count: u16,
    pub attributes: Seq<AttributeModel>,
    pub handle: Option<u32>,
}

impl View for ClassFile {
    type V = ClassModel;

    open spec fn view(&self) -> ClassModel {
        ClassModel {
            magic: self.magic,
            minor: self.minor,
            major: self.major,
            constant_count: self.constant_count,
            constant_pool: self.constant_pool.deep_view(),
            access_flags: self.access_flags,
            this_class: self.this_class,
            super_class: self.super_class,
            interfaces_count: self.interfaces_count,
            interfaces: self.interfaces@,
            fields_count: self.fields_count,
            fields: self.fields.deep_view(),
            methods_count: self.methods_count,
            methods: self.methods.deep_view(),
            attribute_count: self.attribute_count,
            attributes: self.attributes.deep_view(),
            handle: self.handle,
        }
    }
}

impl DeepView for ClassFile {
    type V = ClassModel;

    open spec fn deep_view(&self) -> ClassModel {
        self@
    }
}

/// The marker that every class file starts with.
pub const CLASS_MAGIC: u32 = 0xCAFEBABE;

/// The class that the class file `s` holds. The file is the marker
/// `0xCAFEBABE`, the minor and the major version, the declared size of the pool
/// and the pool, the flags, the pool indices of the class and of its
/// superclass, the interfaces, the fields, the methods and the attributes, each
/// list behind its count. What follows the attributes is ignored. A class that
/// was just decoded has no handle. A file that is refused is refused with the
/// first error that reading it from front to back meets, and with the index in
/// the file of the item that could not be read.
#[verifier::opaque]
pub open spec fn class_of(s: Seq<u8>) -> Result<ClassModel, DecodeFailure> {
    match class_parts(s) {
        Ok(c) => Ok(c),
        Err(e) => Err(DecodeFailure { error: e.error, offset: (s.len() - e.left) as usize }),
    }
}

/// The class that the class file `s` holds, or the failure of reading it.
pub open spec fn class_parts(s: Seq<u8>) -> Result<ClassModel, Failure> {
    match take_u32(s) {
        Err(e) => Err(e),
        Ok((magic, s1)) => if magic != CLASS_MAGIC {
            Err(Failure::at(ClassError::BadMagic(magic), s))
        } else {
            match take_u16(s1) {
                Err(e) => Err(e),
                Ok((minor, s2)) => match take_u16(s2) {
                    Err(e) => Err(e),
                    Ok((major, s3)) => match take_u16(s3) {
                        Err(e) => Err(e),
                        Ok((declared, s4)) => match pool_at(s4, declared) {
                            Err(e) => Err(e),
                            Ok((constant_pool, s5)) => class_body(
                                ClassModel {
                                    magic,
                                    minor,
                                    major,
                                    constant_count: if declared == 0 {
                                        0u16
                                    } else {
                                        (declared - 1) as u16
                                    },
                                    constant_pool,
                                    access_flags: 0,
                                    this_class: 0,
                                    super_class: 0,
                                    interfaces_count: 0,
                                    interfaces: Seq::<u16>::empty(),
                                    fields_count: 0,
                                    fields: Seq::<MemberModel>::empty(),
                                    methods_count: 0,
                                    methods: Seq::<MemberModel>::empty(),
                                    attribute_count: 0,
                                    attributes: Seq::<AttributeModel>::empty(),
                                    handle: None,
                                },
                                s5,
                            ),
                        },
                    },
                },
            }
        },
    }
}

/// The class whose marker, versions and pool are those of `head`, and whose
/// other parts are read from `s`, which is what follows the pool.
pub open spec fn class_body(head: ClassModel, s: Seq<u8>) -> Result<ClassModel, Failure> {
    match take_u16(s) {
        Err(e) => Err(e),
        Ok((access_flags, s1)) => match take_u16(s1) {
            Err(e) => Err(e),
            Ok((this_class, s2)) => match take_u16(s2) {
                Err(e) => Err(e),
                Ok((super_class, s3)) => match take_u16(s3) {
                    Err(e) => Err(e),
                    Ok((interfaces_count, s4)) => match take_u16s(s4, interfaces_count as nat) {
                        Err(e) => Err(e),
                        Ok((interfaces, s5)) => match take_u16(s5) {
                            Err(e) => Err(e),
                            Ok((fields_count, s6)) => match members_at(
                                head.constant_pool,
                                s6,
                                fields_count as nat,
                                AttributeLocation::FieldInfo,
                            ) {
                                Err(e) => Err(e),
                                Ok((fields, s7)) => match take_u16(s7) {
                                    Err(e) => Err(e),
                                    Ok((methods_count, s8)) => match members_at(
                                        head.constant_pool,
                                        s8,
                                        methods_count as nat,
                                        AttributeLocation::MethodInfo,
                                    ) {
                                        Err(e) => Err(e),
                                        Ok((methods, s9)) => match take_u16(s9) {
                                            Err(e) => Err(e),
                                            Ok((attribute_count, s10)) => match attributes_at(
                                                head.constant_pool,
                                                s10,
                                                attribute_count as nat,
                                                AttributeLocation::ClassFile,
                                            ) {
                                                Err(e) => Err(e),
                                                Ok((attributes, _)) => Ok(
                                                    ClassModel {
                                                        access_flags,
                                                        this_class,
                                                        super_class,
                                                        interfaces_count,
                                                        interfaces,
                                                        fields_count,
                                                        fields,
                                                        methods_count,
                                                        methods,
                                                        attribute_count,
                                                        attributes,
                                                        ..head
                                                    },
                                                ),
                                            },
                                        },
                                    },
                                },
                            },
                        },
                    },
                },
            },
        },
    }
}

/// A failure of reading a class file lies in the file.
pub proof fn lemma_class_bounds(s: Seq<u8>)
    requires
        s.len() <= usize::MAX,
    ensures
        class_parts(s) matches Err(e) ==> e.left <= s.len(),
{
    if s.len() >= 10 {
        let s4 = s.skip(4).skip(2).skip(2).skip(2);
        let declared = take_u16(s.skip(4).skip(2).skip(2))->Ok_0.0;
        lemma_pool_entries_bounds(
            s4,
            if declared == 0 {
                0nat
            } else {
                (declared - 1) as nat
            },
        );
        match pool_at(s4, declared) {
            Ok((pool, s5)) => {
                if s5.len() >= 8 {
                    let t4 = s5.skip(2).skip(2).skip(2).skip(2);
                    let interfaces_count = take_u16(s5.skip(2).skip(2).skip(2))->Ok_0.0;
                    match take_u16s(t4, interfaces_count as nat) {
                        Ok((_, t5)) => {
                            if t5.len() >= 2 {
                                let fields_count = take_u16(t5)->Ok_0.0;
                                let t6 = t5.skip(2);
                                lemma_members_bounds(
                                    pool,
                                    t6,
                                    fields_count as nat,
                                    AttributeLocation::FieldInfo,
                                );
                                match members_at(
                                    pool,
                                    t6,
                                    fields_count as nat,
                                    AttributeLocation::FieldInfo,
                                ) {
                                    Ok((_, t7)) => {
                                        if t7.len() >= 2 {
                                            let methods_count = take_u16(t7)->Ok_0.0;
                                            let t8 = t7.skip(2);
                                            lemma_members_bounds(
                                                pool,
                                                t8,
                                                methods_count as nat,
                                                AttributeLocation::MethodInfo,
                                            );
                                            match members_at(
                                                pool,
                                                t8,
                                                methods_count as nat,
                                                AttributeLocation::MethodInfo,
                                            ) {
                                                Ok((_, t9)) => {
                                                    if t9.len() >= 2 {
                                                        let attribute_count = take_u16(t9)->Ok_0.0;
                                                        lemma_attributes_bounds(
                                                            pool,
                                                            t9.skip(2),
                                                            attribute_count as nat,
                                                            AttributeLocation::ClassFile,
                                                        );
                                                    }
                                                },
                                                Err(_) => {},
                                            }
                                        }
                                    },
                                    Err(_) => {},
                                }
                            }
                        },
                        Err(_) => {},
                    }
                }
            },
            Err(_) => {},
        }
    }
}

/// The pool of a decoded class has one entry for each index below the size
/// that the file declares, where a `Long` or a `Double` counts for two; a file
/// that declares the size 0 gives the pool of size 1.
pub proof fn lemma_pool_size(s: Seq<u8>)
    ensures
        class_of(s) matches Ok(c) ==> {
            let declared = be16_at(s, 8);
            &&& c.constant_pool.len() == (if declared == 0 {
                1int
            } else {
                declared
            })
            &&& c.constant_pool.len() == c.constant_count + 1
            &&& c.constant_pool[0] == PoolEntry::Dummy
        },
{
    reveal(class_of);
    if class_parts(s) is Ok {
        let s3 = s.skip(4).skip(2).skip(2);
        let declared = take_u16(s3)->Ok_0.0;
        let s4 = s3.skip(2);
        assert(s3[0] == s[8] && s3[1] == s[9]);
        lemma_pool_entries_len(
            s4,
            if declared == 0 {
                0nat
            } else {
                (declared - 1) as nat
            },
        );
    }
}

/// The two bytes of `s` from index `i` on, as one big-endian integer.
pub open spec fn be16_at(s: Seq<u8>, i: int) -> int {
    s[i] as int * 0x100 + s[i + 1] as int
}

impl ClassFile {
    /// Decodes a class file. The result is the class that the file holds, or
    /// the first error that reading it from front to back meets, with the
    /// place in the file where the item starts that could not be read.
    pub fn new(bytes: Bytes) -> (r: Result<Self, DecodeFailure>)
        ensures
            match class_of(buf_content(bytes)) {
                Ok(c) => r matches Ok(out) && out@ == c,
                Err(e) => r matches Err(x) && x == e,
            },
            r matches Ok(out) ==> out.constant_pool.len() == out.constant_count + 1,
    {
        let total = buf_remaining(&bytes);
        proof {
            reveal(class_of);
            lemma_class_bounds(buf_content(bytes));
        }
        match Self::read_parts(bytes) {
            Ok(class) => Ok(class),
            Err(e) => Err(DecodeFailure { error: e.error, offset: total - e.left }),
        }
    }

    /// Decodes a class file, front to back.
    fn read_parts(bytes: Bytes) -> (r: Result<Self, Failure>)
        ensures
            match class_parts(buf_content(bytes)) {
                Ok(c) => r matches Ok(out) && out@ == c,
                Err(e) => r matches Err(x) && x == e,
            },
            r matches Ok(out) ==> out.constant_pool.len() == out.constant_count + 1,
    {
        let mut b = bytes;
        let left = buf_remaining(&b);
        let magic = read_u32(&mut b)?;
        if magic != CLASS_MAGIC {
            return Err(Failure { error: ClassError::BadMagic(magic), left });
        }
        let minor = read_u16(&mut b)?;
        let major = read_u16(&mut b)?;
        let declared = read_u16(&mut b)?;
        let constant_pool = read_pool(&mut b, declared)?;
        let constant_count: u16 = if declared == 0 {
            0
        } else {
            declared - 1
        };
        let access_flags = read_u16(&mut b)?;
        let this_class = read_u16(&mut b)?;
        let super_class = read_u16(&mut b)?;
        let interfaces_count = read_u16(&mut b)?;
        let interfaces = read_u16s(&mut b, interfaces_count as usize)?;
        let fields_count = read_u16(&mut b)?;
        let fields = read_fields(&mut b, &constant_pool, fields_count)?;
        let methods_count = read_u16(&mut b)?;
        let methods = read_methods(&mut b, &constant_pool, methods_count)?;
        let attribute_count = read_u16(&mut b)?;
        let attributes = read_attributes(
            &mut b,
            &constant_pool,
            attribute_count,
            AttributeLocation::ClassFile,
        )?;
        Ok(
            ClassFile {
                magic,
                minor,
                major,
                constant_count,
                constant_pool,
                access_flags,
                this_class,
                super_class,
                interfaces_count,
                interfaces,
                fields_count,
                fields,
                methods_count,
                methods,
                attribute_count,
                attributes,
                handle: None,
            },
        )
    }

    /// Records the handle that the heap gave this class.
    pub fn set_handle(&mut self, handle: u32)
        ensures
            *final(self) == (ClassFile { handle: Some(handle), ..*old(self) }),
    {
        self.handle = Some(handle);
    }

    /// The handle that the heap gave this class.
    pub fn get_handle(&self) -> (r: u32)
        requires
            self.handle is Some,
        ensures
            Some(r) == self.handle,
    {
        match self.handle {
            Some(h) => h,
            None => 0,
        }
    }

    /// The marker that the class file starts with.
    pub fn get_magic(&self) -> (r: u32)
        ensures
            r == self.magic,
    {
        self.magic
    }

    /// The minor version of the class file format.
    pub fn get_minor(&self) -> (r: u16)
        ensures
            r == self.minor,
    {
        self.minor
    }

    /// The major version of the class file format.
    pub fn get_major(&self) -> (r: u16)
        ensures
            r == self.major,
    {
        self.major
    }

    /// The number of pool indices behind the unused index 0.
    pub fn get_constant_count(&self) -> (r: u16)
        ensures
            r == self.constant_count,
    {
        self.constant_count
    }

    /// The constant pool, the unused entry at index 0 included.
    pub fn get_constant_pool(&self) -> (r: &Vec<ConstantsPoolInfo>)
        ensures
            r == &self.constant_pool,
    {
        &self.constant_pool
    }

    /// The flags of the class.
    pub fn get_access_flags(&self) -> (r: u16)
        ensures
            r == self.access_flags,
    {
        self.access_flags
    }

    /// The pool index of the class itself.
    pub fn get_this_class(&self) -> (r: u16)
        ensures
            r == self.this_class,
    {
        self.this_class
    }

    /// The pool index of the class above this one, or 0 where there is none.
    pub fn get_super_class(&self) -> (r: u16)
        ensures
            r == self.super_class,
    {
        self.super_class
    }

    /// The number of interfaces.
    pub fn get_interface_count(&self) -> (r: u16)
        ensures
            r == self.interfaces_count,
    {
        self.interfaces_count
    }

    /// The pool indices of the interfaces.
    pub fn get_interfaces(&self) -> (r: &Vec<u16>)
        ensures
            r == &self.interfaces,
    {
        &self.interfaces
    }

    /// The number of fields.
    pub fn get_field_count(&self) -> (r: u16)
        ensures
            r == self.fields_count,
    {
        self.fields_count
    }

    /// The fields.
    pub fn get_fields(&self) -> (r: &Vec<FieldInfo>)
        ensures
            r == &self.fields,
    {
        &self.fields
    }

    /// The number of methods.
    pub fn get_method_count(&self) -> (r: u16)
        ensures
            r == self.methods_count,
    {
        self.methods_count
    }

    /// The methods.
    pub fn get_methods(&self) -> (r: &Vec<MethodInfo>)
        ensures
            r == &self.methods,
    {
        &self.methods
    }

    /// The number of attributes of the class.
    pub fn get_attribute_count(&self) -> (r: u16)
        ensures
            r == self.attribute_count,
    {
        self.attribute_count
    }

    /// The attributes of the class.
    pub fn get_attributes(&self) -> (r: &Vec<Attribute>)
        ensures
            r == &self.attributes,
    {
        &self.attributes
    }
}

/// The text of the pool entry at `index`, where that entry is a `Utf8`.
pub fn text_at(pool: &Vec<ConstantsPoolInfo>, index: u16) -> (r: Option<&String>)
    ensures
        match pool_text(pool.deep_view(), index as int) {
            Some(text) => r matches Some(out) && out@ == text,
            None => r is None,
        },
{
    if (index as usize) < pool.len() {
        assert(pool.deep_view()[index as int] == pool[index as int]@);
        match &pool[index as usize] {
            ConstantsPoolInfo::Utf8 { bytes, .. } => Some(bytes),
            _ => None,
        }
    } else {
        None
    }
}

/// The class name that the pool entry at `index` stands for, where that entry
/// is a `Class` whose name index leads to a `Utf8`.
pub open spec fn class_name_at(pool: Seq<PoolEntry>, index: int) -> Option<Seq<char>> {
    if 0 <= index < pool.len() {
        match pool[index] {
            PoolEntry::Class { name_index } => pool_text(pool, name_index as int),
            _ => None,
        }
    } else {
        None
    }
}

/// The class name that the pool entry at `index` stands for.
pub fn class_name_of(pool: &Vec<ConstantsPoolInfo>, index: u16) -> (r: Option<&String>)
    ensures
        match class_name_at(pool.deep_view(), index as int) {
            Some(text) => r matches Some(out) && out@ == text,
            None => r is None,
        },
{
    if (index as usize) < pool.len() {
        assert(pool.deep_view()[index as int] == pool[index as int]@);
        match &pool[index as usize] {
            ConstantsPoolInfo::Class { name_index } => text_at(pool, *name_index),
            _ => None,
        }
    } else {
        None
    }
}

/// The name and the descriptor that the pool entry at `index` stands for,
/// where that entry is a `NameAndType` whose two indices lead to `Utf8`
/// entries.
pub open spec fn name_and_type_at(pool: Seq<PoolEntry>, index: int) -> Option<
    (Seq<char>, Seq<char>),
> {
    if 0 <= index < pool.len() {
        match pool[index] {
            PoolEntry::NameAndType { name_index, descriptor_index } => match (
                pool_text(pool, name_index as int),
                pool_text(pool, descriptor_index as int),
            ) {
                (Some(name), Some(descriptor)) => Some((name, descriptor)),
                _ => None,
            },
            _ => None,
        }
    } else {
        None
    }
}

/// The name and the descriptor that the pool entry at `index` stands for.
pub fn name_and_type_of(pool: &Vec<ConstantsPoolInfo>, index: u16) -> (r: Option<
    (&String, &String),
>)
    ensures
        match name_and_type_at(pool.deep_view(), index as int) {
            Some((name, descriptor)) => r matches Some(out) && out.0@ == name && out.1@
                == descriptor,
            None => r is None,
        },
{
    if (index as usize) < pool.len() {
        assert(pool.deep_view()[index as int] == pool[index as int]@);
        match &pool[index as usize] {
            ConstantsPoolInfo::NameAndType { name_index, descriptor_index } => {
                match (text_at(pool, *name_index), text_at(pool, *descriptor_index)) {
                    (Some(name), Some(descriptor)) => Some((name, descriptor)),
                    _ => None,
                }
            },
            _ => None,
        }
    } else {
        None
    }
}

/// A symbolic reference to a field or a method: the name of the class it is
/// declared for, its name and its descriptor.
#[derive(Debug)]
pub struct MemberRef {
    pub class: String,
    pub name: String,
    pub descriptor: String,
}

/// The mathematical value of a [`MemberRef`].
pub struct MemberRefModel {
    pub class: Seq<char>,
    pub name: Seq<char>,
    pub descriptor: Seq<char>,
}

impl View for MemberRef {
    type V = MemberRefModel;

    open spec fn view(&self) -> MemberRefModel {
        MemberRefModel { class: self.class@, name: self.name@, descriptor: self.descriptor@ }
    }
}

/// The reference made of the class at `class_index` and the name and type at
/// `name_and_type_index`.
pub open spec fn member_ref(
    pool: Seq<PoolEntry>,
    class_index: u16,
    name_and_type_index: u16,
) -> Option<MemberRefModel> {
    match (
        class_name_at(pool, class_index as int),
        name_and_type_at(pool, name_and_type_index as int),
    ) {
        (Some(class), Some((name, descriptor))) => Some(
            MemberRefModel { class, name, descriptor },
        ),
        _ => None,
    }
}

/// The method that the pool entry at `index` refers to, where that entry is a
/// `MethodRef` or an `InterfaceMethodRef` that leads to a `Class` and to a
/// `NameAndType`.
pub open spec fn method_ref_at(pool: Seq<PoolEntry>, index: int) -> Option<MemberRefModel> {
    if 0 <= index < pool.len() {
        match pool[index] {
            PoolEntry::MethodRef { class_index, name_and_type_index } => member_ref(
                pool,
                class_index,
                name_and_type_index,
            ),
            PoolEntry::InterfaceMethodRef { class_index, name_and_type_index } => member_ref(
                pool,
                class_index,
                name_and_type_index,
            ),
            _ => None,
        }
    } else {
        None
    }
}

/// The field that the pool entry at `index` refers to, where that entry is a
/// `FieldRef` that leads to a `Class` and to a `NameAndType`.
pub open spec fn field_ref_at(pool: Seq<PoolEntry>, index: int) -> Option<MemberRefModel> {
    if 0 <= index < pool.len() {
        match pool[index] {
            PoolEntry::FieldRef { class_index, name_and_type_index } => member_ref(
                pool,
                class_index,
                name_and_type_index,
            ),
            _ => None,
        }
    } else {
        None
    }
}

/// The reference made of the class at `class_index` and the name and type at
/// `name_and_type_index`.
fn member_ref_of(pool: &Vec<ConstantsPoolInfo>, class_index: u16, name_and_type_index: u16) -> (r:
    Option<MemberRef>)
    ensures
        match member_ref(pool.deep_view(), class_index, name_and_type_index) {
            Some(m) => r matches Some(out) && out@ == m,
            None => r is None,
        },
{
    match (class_name_of(pool, class_index), name_and_type_of(pool, name_and_type_index)) {
        (Some(class), Some((name, descriptor))) => Some(
            MemberRef { class: class.clone(), name: name.clone(), descriptor: descriptor.clone() },
        ),
        _ => None,
    }
}

/// The method that the pool entry at `index` refers to.
pub fn method_ref_of(pool: &Vec<ConstantsPoolInfo>, index: u16) -> (r: Option<MemberRef>)
    ensures
        match method_ref_at(pool.deep_view(), index as int) {
            Some(m) => r matches Some(out) && out@ == m,
            None => r is None,
        },
{
    if (index as usize) < pool.len() {
        assert(pool.deep_view()[index as int] == pool[index as int]@);
        match &pool[index as usize] {
            ConstantsPoolInfo::MethodRef { class_index, name_and_type_index } => member_ref_of(
                pool,
                *class_index,
                *name_and_type_index,
            ),
            ConstantsPoolInfo::InterfaceMethodRef {
                class_index,
                name_and_type_index,
            } => member_ref_of(pool, *class_index, *name_and_type_index),
            _ => None,
        }
    } else {
        None
    }
}

/// The field that the pool entry at `index` refers to.
pub fn field_ref_of(pool: &Vec<ConstantsPoolInfo>, index: u16) -> (r: Option<MemberRef>)
    ensures
        match field_ref_at(pool.deep_view(), index as int) {
            Some(m) => r matches Some(out) && out@ == m,
            None => r is None,
        },
{
    if (index as usize) < pool.len() {
        assert(pool.deep_view()[index as int] == pool[index as int]@);
        match &pool[index as usize] {
            ConstantsPoolInfo::FieldRef { class_index, name_and_type_index } => member_ref_of(
                pool,
                *class_index,
                *name_and_type_index,
            ),
            _ => None,
        }
    } else {
        None
    }
}

/// Whether the indices that `entry` holds lead to entries of the variants
/// that the format asks for. A `Class`, a `String`, a `MethodType`, a `Module`
/// and a `Package` lead to a `Utf8`; a `NameAndType` leads to two of them; a
/// reference to a field or a method leads to a `Class` and to a `NameAndType`
/// that are in order themselves; a `MethodHandle` leads to a reference to a
/// field or a method; a `Dynamic` and an `InvokeDynamic` lead to a
/// `NameAndType`.
pub open spec fn entry_links_ok(pool: Seq<PoolEntry>, entry: PoolEntry) -> bool {
    match entry {
        PoolEntry::Class { name_index } => pool_text(pool, name_index as int) is Some,
        PoolEntry::String { string_index } => pool_text(pool, string_index as int) is Some,
        PoolEntry::FieldRef { class_index, name_and_type_index } => member_ref(
            pool,
            class_index,
            name_and_type_index,
        ) is Some,
        PoolEntry::MethodRef { class_index, name_and_type_index } => member_ref(
            pool,
            class_index,
            name_and_type_index,
        ) is Some,
        PoolEntry::InterfaceMethodRef { class_index, name_and_type_index } => member_ref(
            pool,
            class_index,
            name_and_type_index,
        ) is Some,
        PoolEntry::NameAndType { name_index, descriptor_index } => pool_text(
            pool,
            name_index as int,
        ) is Some && pool_text(pool, descriptor_index as int) is Some,
        PoolEntry::MethodHandle { reference_index, .. } => reference_index < pool.len() && (
        pool[reference_index as int] is FieldRef || pool[reference_index as int] is MethodRef
            || pool[reference_index as int] is InterfaceMethodRef),
        PoolEntry::MethodType { descriptor_index } => pool_text(pool, descriptor_index as int)
            is Some,
        PoolEntry::Dynamic { name_and_type_index, .. } => name_and_type_at(
            pool,
            name_and_type_index as int,
        ) is Some,
        PoolEntry::InvokeDynamic { name_and_type_index, .. } => name_and_type_at(
            pool,
            name_and_type_index as int,
        ) is Some,
        PoolEntry::Module { name_index } => pool_text(pool, name_index as int) is Some,
        PoolEntry::Package { name_index } => pool_text(pool, name_index as int) is Some,
        _ => true,
    }
}

/// Whether every index that an entry of the pool holds leads to an entry of
/// the variant that the format asks for.
pub open spec fn links_ok(pool: Seq<PoolEntry>) -> bool {
    forall|i: int| 0 <= i < pool.len() ==> entry_links_ok(pool, #[trigger] pool[i])
}

/// Whether the indices that `entry` holds lead to entries of the variants
/// that the format asks for.
fn entry_links_in_order(pool: &Vec<ConstantsPoolInfo>, entry: &ConstantsPoolInfo) -> (r: bool)
    ensures
        r == entry_links_ok(pool.deep_view(), entry@),
{
    match entry {
        ConstantsPoolInfo::Class { name_index } => text_at(pool, *name_index).is_some(),
        ConstantsPoolInfo::String { string_index } => text_at(pool, *string_index).is_some(),
        ConstantsPoolInfo::FieldRef { class_index, name_and_type_index } => member_ref_of(
            pool,
            *class_index,
            *name_and_type_index,
        ).is_some(),
        ConstantsPoolInfo::MethodRef { class_index, name_and_type_index } => member_ref_of(
            pool,
            *class_index,
            *name_and_type_index,
        ).is_some(),
        ConstantsPoolInfo::InterfaceMethodRef { class_index, name_and_type_index } => member_ref_of(
            pool,
            *class_index,
            *name_and_type_index,
        ).is_some(),
        ConstantsPoolInfo::NameAndType { name_index, descriptor_index } => text_at(
            pool,
            *name_index,
        ).is_some() && text_at(pool, *descriptor_index).is_some(),
        ConstantsPoolInfo::MethodHandle { reference_index, .. } => {
            if (*reference_index as usize) < pool.len() {
                assert(pool.deep_view()[*reference_index as int] == pool[*reference_index as int]@);
                match &pool[*reference_index as usize] {
                    ConstantsPoolInfo::FieldRef { .. } => true,
                    ConstantsPoolInfo::MethodRef { .. } => true,
                    ConstantsPoolInfo::InterfaceMethodRef { .. } => true,
                    _ => false,
                }
            } else {
                false
            }
        },
        ConstantsPoolInfo::MethodType { descriptor_index } => text_at(
            pool,
            *descriptor_index,
        ).is_some(),
        ConstantsPoolInfo::Dynamic { name_and_type_index, .. } => name_and_type_of(
            pool,
            *name_and_type_index,
        ).is_some(),
        ConstantsPoolInfo::InvokeDynamic { name_and_type_index, .. } => name_and_type_of(
            pool,
            *name_and_type_index,
        ).is_some(),
        ConstantsPoolInfo::Module { name_index } => text_at(pool, *name_index).is_some(),
        ConstantsPoolInfo::Package { name_index } => text_at(pool, *name_index).is_some(),
        _ => true,
    }
}

/// In a pool whose links are in order, resolving a reference to a field or a
/// method gives the name of the class that its class index leads to, and the
/// name and the descriptor that its name-and-type index leads to.
pub proof fn lemma_resolution_round_trip(pool: Seq<PoolEntry>, i: int)
    requires
        links_ok(pool),
        0 <= i < pool.len(),
        pool[i] is FieldRef || pool[i] is MethodRef,
    ensures
        ({
            let (class_index, name_and_type_index) = match pool[i] {
                PoolEntry::FieldRef { class_index, name_and_type_index } => (
                    class_index,
                    name_and_type_index,
                ),
                PoolEntry::MethodRef { class_index, name_and_type_index } => (
                    class_index,
                    name_and_type_index,
                ),
                _ => (0u16, 0u16),
            };
            let resolved = if pool[i] is FieldRef {
                field_ref_at(pool, i)
            } else {
                method_ref_at(pool, i)
            };
            &&& class_index < pool.len()
            &&& name_and_type_index < pool.len()
            &&& pool[class_index as int] matches PoolEntry::Class { name_index: class_name }
            &&& pool[name_and_type_index as int] matches PoolEntry::NameAndType {
                name_index,
                descriptor_index,
            }
            &&& resolved matches Some(m)
            &&& Some(m.class) == pool_text(pool, class_name as int)
            &&& Some(m.name) == pool_text(pool, name_index as int)
            &&& Some(m.descriptor) == pool_text(pool, descriptor_index as int)
        }),
{
}

impl ClassFile {
    /// The text of the pool entry at `index`, where that entry is a `Utf8`.
    pub fn resolve(&self, index: u16) -> (r: Option<&String>)
        ensures
            match pool_text(self@.constant_pool, index as int) {
                Some(text) => r matches Some(out) && out@ == text,
                None => r is None,
            },
    {
        text_at(&self.constant_pool, index)
    }

    /// Whether every index that an entry of the pool holds leads to an entry
    /// of the variant that the format asks for.
    pub fn check_links(&self) -> (r: bool)
        ensures
            r == links_ok(self@.constant_pool),
    {
        let ghost pool = self.constant_pool.deep_view();
        let mut i: usize = 0;
        while i < self.constant_pool.len()
            invariant
                i <= self.constant_pool.len(),
                pool == self.constant_pool.deep_view(),
                forall|k: int| 0 <= k < i ==> entry_links_ok(pool, #[trigger] pool[k]),
            decreases self.constant_pool.len() - i,
        {
            assert(pool[i as int] == self.constant_pool[i as int]@);
            if !entry_links_in_order(&self.constant_pool, &self.constant_pool[i]) {
                return false;
            }
            i = i + 1;
        }
        true
    }
}

/// What the first `Code` among `attributes` holds: the limit of the operand
/// stack, the number of local variables, and the code.
pub open spec fn code_attribute(attributes: Seq<AttributeModel>) -> Option<(u16, u16, Seq<u8>)>
    decreases attributes.len(),
{
    if attributes.len() == 0 {
        None
    } else {
        match attributes[0] {
            AttributeModel::Code { max_stack, max_locals, code, .. } => Some(
                (max_stack, max_locals, code),
            ),
            _ => code_attribute(attributes.skip(1)),
        }
    }
}

/// Whether `member` goes by the name `name` and the descriptor `descriptor`.
pub open spec fn member_matches(
    pool: Seq<PoolEntry>,
    member: MemberModel,
    name: Seq<char>,
    descriptor: Seq<char>,
) -> bool {
    pool_text(pool, member.name_index as int) == Some(name) && pool_text(
        pool,
        member.descriptor_index as int,
    ) == Some(descriptor)
}

/// The code of the first method of `class`, at or behind the index `from`,
/// that goes by `name` and `descriptor` and has code.
pub open spec fn find_code(class: ClassModel, name: Seq<char>, descriptor: Seq<char>, from: int)
    -> Option<(u16, u16, Seq<u8>)>
    decreases class.methods.len() - from,
{
    if from < 0 || from >= class.methods.len() {
        None
    } else if member_matches(class.constant_pool, class.methods[from], name, descriptor)
        && code_attribute(class.methods[from].attribute_info) is Some {
        code_attribute(class.methods[from].attribute_info)
    } else {
        find_code(class, name, descriptor, from + 1)
    }
}

/// Whether `class` declares a method of the name `name` and the descriptor
/// `descriptor`, with code or without.
pub open spec fn declares_method(class: ClassModel, name: Seq<char>, descriptor: Seq<char>) -> bool {
    exists|i: int|
        0 <= i < class.methods.len() && member_matches(
            class.constant_pool,
            #[trigger] class.methods[i],
            name,
            descriptor,
        )
}

/// The index of the first field of `class`, at or behind the index `from`,
/// that goes by the name `name`.
pub open spec fn find_field(class: ClassModel, name: Seq<char>, from: int) -> Option<int>
    decreases class.fields.len() - from,
{
    if from < 0 || from >= class.fields.len() {
        None
    } else if pool_text(class.constant_pool, class.fields[from].name_index as int) == Some(name) {
        Some(from)
    } else {
        find_field(class, name, from + 1)
    }
}

/// The frame in which the method `name` of `class` starts: the instruction
/// pointer at 0, the operand stack empty, and every local variable `Void`.
pub open spec fn new_frame(class: ClassModel, name: Seq<char>, descriptor: Seq<char>) -> Option<
    FrameModel,
> {
    match find_code(class, name, descriptor, 0) {
        Some((max_stack, max_locals, code)) => Some(
            FrameModel {
                class_handle: class.handle->0,
                method: name,
                ip: 0,
                code,
                locals: Seq::new(max_locals as nat, |i: int| Slot::void()),
                stack: Seq::<Slot>::empty(),
                max_stack: max_stack as int,
                returns_value: match descriptor_of(descriptor) {
                    Some(d) => d.returns_value(),
                    None => false,
                },
            },
        ),
        None => None,
    }
}

/// The index of the first `Code` among `attributes`.
fn code_index(attributes: &Vec<Attribute>) -> (r: Option<usize>)
    ensures
        match code_attribute(attributes.deep_view()) {
            Some((max_stack, max_locals, code)) => {
                &&& r matches Some(i)
                &&& i < attributes.len()
                &&& attributes[i as int] matches Attribute::Code {
                    max_stack: a,
                    max_locals: b,
                    code: c,
                    ..
                }
                &&& a == max_stack
                &&& b == max_locals
                &&& c@ == code
            },
            None => r is None,
        },
{
    let ghost all = attributes.deep_view();
    let mut i: usize = 0;
    assert(all.skip(0) == all);
    while i < attributes.len()
        invariant
            i <= attributes.len(),
            all == attributes.deep_view(),
            code_attribute(all) == code_attribute(all.skip(i as int)),
        decreases attributes.len() - i,
    {
        assert(all.skip(i as int)[0] == attributes[i as int].model());
        assert(all.skip(i as int).skip(1) == all.skip(i + 1));
        match &attributes[i] {
            Attribute::Code { .. } => {
                return Some(i);
            },
            _ => {},
        }
        i = i + 1;
    }
    None
}

impl ClassFile {
    /// Whether this class declares a method of the name `name` and the
    /// descriptor `desc`, with code or without.
    #[verifier::loop_isolation(false)]
    pub fn declares(&self, name: &str, desc: &str) -> (r: bool)
        ensures
            r == declares_method(self@, name@, desc@),
    {
        let ghost pool = self.constant_pool.deep_view();
        let ghost all = self.methods.deep_view();
        let mut i: usize = 0;
        while i < self.methods.len()
            invariant
                i <= self.methods.len(),
                pool == self.constant_pool.deep_view(),
                all == self.methods.deep_view(),
                forall|k: int| 0 <= k < i ==> !member_matches(pool, #[trigger] all[k], name@, desc@),
            decreases self.methods.len() - i,
        {
            assert(all[i as int] == self.methods[i as int]@);
            let method = &self.methods[i];
            let same = match (
                text_at(&self.constant_pool, method.name_index),
                text_at(&self.constant_pool, method.descriptor_index),
            ) {
                (Some(n), Some(d)) => text_is(n.as_str(), name) && text_is(d.as_str(), desc),
                _ => false,
            };
            if same {
                assert(member_matches(self@.constant_pool, self@.methods[i as int], name@, desc@));
                return true;
            }
            i = i + 1;
        }
        false
    }

    /// The index of the first field of the name `name`.
    pub fn field_index(&self, name: &str) -> (r: Option<usize>)
        ensures
            match find_field(self@, name@, 0) {
                Some(i) => r == Some(i as usize),
                None => r is None,
            },
    {
        let ghost pool = self.constant_pool.deep_view();
        let ghost all = self.fields.deep_view();
        let mut i: usize = 0;
        while i < self.fields.len()
            invariant
                i <= self.fields.len(),
                pool == self.constant_pool.deep_view(),
                all == self.fields.deep_view(),
                find_field(self@, name@, 0) == find_field(self@, name@, i as int),
            decreases self.fields.len() - i,
        {
            assert(all[i as int] == self.fields[i as int]@);
            let same = match text_at(&self.constant_pool, self.fields[i].name_index) {
                Some(n) => text_is(n.as_str(), name),
                None => false,
            };
            if same {
                return Some(i);
            }
            i = i + 1;
        }
        None
    }

    /// The frame in which the method `name` with the descriptor `desc`
    /// starts; `None` where the class has no such method with code. The class
    /// has its handle.
    #[verifier::loop_isolation(false)]
    pub fn create_frame(&self, name: String, desc: String) -> (r: Option<BytecodeFrame>)
        requires
            self.handle is Some,
        ensures
            match new_frame(self@, name@, desc@) {
                Some(f) => r matches Some(out) && out@ == f,
                None => r is None,
            },
    {
        let ghost pool = self.constant_pool.deep_view();
        let ghost all = self.methods.deep_view();
        let mut i: usize = 0;
        while i < self.methods.len()
            invariant
                i <= self.methods.len(),
                pool == self.constant_pool.deep_view(),
                all == self.methods.deep_view(),
                find_code(self@, name@, desc@, 0) == find_code(self@, name@, desc@, i as int),
            decreases self.methods.len() - i,
        {
            assert(all[i as int] == self.methods[i as int]@);
            let method = &self.methods[i];
            let same = match (
                text_at(&self.constant_pool, method.name_index),
                text_at(&self.constant_pool, method.descriptor_index),
            ) {
                (Some(n), Some(d)) => text_is(n.as_str(), name.as_str()) && text_is(
                    d.as_str(),
                    desc.as_str(),
                ),
                _ => false,
            };
            if same {
                match code_index(&method.attribute_info) {
                    Some(at) => {
                        match &method.attribute_info[at] {
                            Attribute::Code { max_stack, max_locals, code, .. } => {
                                let returns_value = match Descriptor::parse(desc.as_str()) {
                                    Some(d) => d.returns_value(),
                                    None => false,
                                };
                                let frame = BytecodeFrame {
                                    class_handle: self.get_handle(),
                                    method: name,
                                    ip: 0,
                                    code: code.clone(),
                                    locals: void_slots(*max_locals as usize),
                                    stack: Vec::new(),
                                    max_stack: *max_stack,
                                    returns_value,
                                };
                                assert(frame.stack.deep_view() == Seq::<Slot>::empty());
                                return Some(frame);
                            },
                            _ => {},
                        }
                    },
                    None => {},
                }
            }
            i = i + 1;
        }
        None
    }
}

/// `n` slots of the kind `Void`.
pub fn void_slots(n: usize) -> (r: Vec<Argument>)
    ensures
        r.deep_view() == Seq::new(n as nat, |i: int| Slot::void()),
{
    let mut out: Vec<Argument> = Vec::new();
    let mut i: usize = 0;
    while i < n
        invariant
            i <= n,
            out.len() == i,
            forall|k: int| 0 <= k < i ==> (#[trigger] out[k])@ == Slot::void(),
        decreases n - i,
    {
        out.push(Argument::new(0, MethodType::Void));
        i = i + 1;
    }
    assert(out.deep_view() =~= Seq::new(n as nat, |i: int| Slot::void()));
    out
}

} // verus!
