//! The bridge to the host: the classes that the machine brings along, each
//! described like a class from a class file, and the names of the methods that
//! the host runs for them.

use crate::buffer::chars_of;
use crate::buffer::is_scalar_value;
use crate::buffer::string_of;
use crate::buffer::text_is;
use crate::class::attribute::AttributeModel;
use crate::class::definition::ClassFile;
use crate::class::definition::ClassModel;
use crate::class::definition::ConstantsPoolInfo;
use crate::class::definition::FieldInfo;
use crate::class::definition::MemberModel;
use crate::class::definition::MethodInfo;
use crate::class::definition::PoolEntry;
use crate::class::definition::class_name_at;
use crate::class::definition::code_attribute;
use crate::class::definition::member_matches;
use crate::class::definition::new_frame;
use crate::class::definition::CLASS_MAGIC;
use crate::class::frame::BytecodeFrame;
use crate::class::frame::FrameModel;
use crate::class::method::clone_slots;
use crate::class::method::same_slots;
use crate::class::method::Argument;
use crate::class::method::Kind;
use crate::class::method::MethodType;
use crate::class::method::Slot;
use crate::vastatrix::lemma_load_valid;
use crate::vastatrix::lemma_steps_extend;
use crate::vastatrix::Vastatrix;
use crate::vastatrix::VmModel;
use crate::VastatrixError;
use vstd::prelude::*;

verus! {

/// A method that the host runs.
#[derive(Debug, Clone, Copy, PartialEq, Eq, Structural)]
pub enum NativeMethod {
    /// A constructor that has nothing to do.
    Init,
    /// The constructor of the empty string.
    StringInit,
    /// The constructor of a string from an array of characters.
    StringInitChars,
    /// `split` of strings: cuts a string at each occurrence of another.
    StringSplit,
    /// `equals` of strings: whether two strings hold the same characters.
    StringEquals,
    /// `getProperty`: the one text that the machine has for every property.
    SystemGetProperty,
    /// `parseInt`: the integer that a string of decimal digits stands for.
    IntegerParseInt,
    /// `forName`: an instance of `java/lang/Class` for a name.
    ClassForName,
    /// `getMethod`: an instance of `java/lang/reflect/Method` for a method of
    /// a class.
    ClassGetMethod,
    /// `invoke`: runs the method that an instance of
    /// `java/lang/reflect/Method` describes.
    MethodInvoke,
}

/// One field or method of a class that the machine brings along: its name and
/// its descriptor.
#[derive(Debug)]
pub struct MemberData {
    pub name: String,
    pub javadesc: String,
}

/// The mathematical value of a [`MemberData`].
pub struct MemberDataModel {
    pub name: Seq<char>,
    pub javadesc: Seq<char>,
}

impl View for MemberData {
    type V = MemberDataModel;

    open spec fn view(&self) -> MemberDataModel {
        MemberDataModel { name: self.name@, javadesc: self.javadesc@ }
    }
}

impl DeepView for MemberData {
    type V = MemberDataModel;

    open spec fn deep_view(&self) -> MemberDataModel {
        self@
    }
}

/// A class that the machine brings along. An empty `superclasspath` stands
/// for `java/lang/Object`.
#[derive(Debug)]
pub struct ClassData {
    pub classpath: String,
    pub superclasspath: String,
    pub methods: Vec<MemberData>,
    pub fields: Vec<MemberData>,
}

/// The mathematical value of a [`ClassData`].
pub struct ClassDataModel {
    pub classpath: Seq<char>,
    pub superclasspath: Seq<char>,
    pub methods: Seq<MemberDataModel>,
    pub fields: Seq<MemberDataModel>,
}

impl View for ClassData {
    type V = ClassDataModel;

    open spec fn view(&self) -> ClassDataModel {
        ClassDataModel {
            classpath: self.classpath@,
            superclasspath: self.superclasspath@,
            methods: self.methods.deep_view(),
            fields: self.fields.deep_view(),
        }
    }
}

impl DeepView for ClassData {
    type V = ClassDataModel;

    open spec fn deep_view(&self) -> ClassDataModel {
        self@
    }
}

/// The name of the class above all others.
pub open spec fn root_class() -> Seq<char> {
    "java/lang/Object"@
}

/// The name of the class of strings.
pub open spec fn string_class() -> Seq<char> {
    "java/lang/String"@
}

/// The method that the host runs for the method `name` with the descriptor
/// `descriptor` of the class `class`.
pub open spec fn native_method(class: Seq<char>, name: Seq<char>, descriptor: Seq<char>) -> Option<
    NativeMethod,
> {
    if class == "java/lang/Object"@ && name == "<init>"@ && descriptor == "()V"@ {
        Some(NativeMethod::Init)
    } else if class == "java/lang/String"@ && name == "<init>"@ && descriptor
        == "()V"@ {
        Some(NativeMethod::StringInit)
    } else if class == "java/lang/String"@ && name == "<init>"@ && descriptor
        == "([C)V"@ {
        Some(NativeMethod::StringInitChars)
    } else if class == "java/lang/String"@ && name == "split"@ && descriptor
        == "(Ljava/lang/String;)[Ljava/lang/String;"@ {
        Some(NativeMethod::StringSplit)
    } else if class == "java/lang/String"@ && name == "equals"@ && descriptor
        == "(Ljava/lang/Object;)Z"@ {
        Some(NativeMethod::StringEquals)
    } else if class == "java/lang/System"@ && name == "<init>"@ && descriptor
        == "()V"@ {
        Some(NativeMethod::Init)
    } else if class == "java/lang/System"@ && name == "getProperty"@ && descriptor
        == "(Ljava/lang/String;)Ljava/lang/String;"@ {
        Some(NativeMethod::SystemGetProperty)
    } else if class == "java/lang/Throwable"@ && name == "<init>"@ && descriptor
        == "()V"@ {
        Some(NativeMethod::Init)
    } else if class == "java/lang/Exception"@ && name == "<init>"@ && descriptor
        == "()V"@ {
        Some(NativeMethod::Init)
    } else if class == "java/lang/RuntimeException"@ && name == "<init>"@ && descriptor
        == "()V"@ {
        Some(NativeMethod::Init)
    } else if class == "java/lang/IllegalStateException"@ && name == "<init>"@ && descriptor
        == "()V"@ {
        Some(NativeMethod::Init)
    } else if class == "java/lang/Integer"@ && name == "parseInt"@ && descriptor
        == "(Ljava/lang/String;)I"@ {
        Some(NativeMethod::IntegerParseInt)
    } else if class == "java/lang/Class"@ && name == "<init>"@ && descriptor
        == "()V"@ {
        Some(NativeMethod::Init)
    } else if class == "java/lang/Class"@ && name == "forName"@ && descriptor
        == "(Ljava/lang/String;)Ljava/lang/Class;"@ {
        Some(NativeMethod::ClassForName)
    } else if class == "java/lang/Class"@ && name == "getMethod"@ && descriptor
        == "(Ljava/lang/String;[Ljava/lang/Class;)Ljava/lang/reflect/Method;"@ {
        Some(NativeMethod::ClassGetMethod)
    } else if class == "java/lang/reflect/Method"@ && name == "invoke"@ && descriptor
        == "(Ljava/lang/Object;[Ljava/lang/Object;)Ljava/lang/Object;"@ {
        Some(NativeMethod::MethodInvoke)
    } else {
        None
    }
}

/// The method that the host runs for the method `name` with the descriptor
/// `descriptor` of the class `class`.
pub fn native_method_of(class: &str, name: &str, descriptor: &str) -> (r: Option<NativeMethod>)
    ensures
        r == native_method(class@, name@, descriptor@),
{
    if text_is(class, "java/lang/Object") && text_is(name, "<init>") && text_is(descriptor, "()V") {
        Some(NativeMethod::Init)
    } else if text_is(class, "java/lang/String") && text_is(name, "<init>") && text_is(
        descriptor,
        "()V",
    ) {
        Some(NativeMethod::StringInit)
    } else if text_is(class, "java/lang/String") && text_is(name, "<init>") && text_is(
        descriptor,
        "([C)V",
    ) {
        Some(NativeMethod::StringInitChars)
    } else if text_is(class, "java/lang/String") && text_is(name, "split") && text_is(
        descriptor,
        "(Ljava/lang/String;)[Ljava/lang/String;",
    ) {
        Some(NativeMethod::StringSplit)
    } else if text_is(class, "java/lang/String") && text_is(name, "equals") && text_is(
        descriptor,
        "(Ljava/lang/Object;)Z",
    ) {
        Some(NativeMethod::StringEquals)
    } else if text_is(class, "java/lang/System") && text_is(name, "<init>") && text_is(
        descriptor,
        "()V",
    ) {
        Some(NativeMethod::Init)
    } else if text_is(class, "java/lang/System") && text_is(name, "getProperty") && text_is(
        descriptor,
        "(Ljava/lang/String;)Ljava/lang/String;",
    ) {
        Some(NativeMethod::SystemGetProperty)
    } else if text_is(class, "java/lang/Throwable") && text_is(name, "<init>") && text_is(
        descriptor,
        "()V",
    ) {
        Some(NativeMethod::Init)
    } else if text_is(class, "java/lang/Exception") && text_is(name, "<init>") && text_is(
        descriptor,
        "()V",
    ) {
        Some(NativeMethod::Init)
    } else if text_is(class, "java/lang/RuntimeException") && text_is(name, "<init>") && text_is(
        descriptor,
        "()V",
    ) {
        Some(NativeMethod::Init)
    } else if text_is(class, "java/lang/IllegalStateException") && text_is(name, "<init>") && text_is(
        descriptor,
        "()V",
    ) {
        Some(NativeMethod::Init)
    } else if text_is(class, "java/lang/Integer") && text_is(name, "parseInt") && text_is(
        descriptor,
        "(Ljava/lang/String;)I",
    ) {
        Some(NativeMethod::IntegerParseInt)
    } else if text_is(class, "java/lang/Class") && text_is(name, "<init>") && text_is(
        descriptor,
        "()V",
    ) {
        Some(NativeMethod::Init)
    } else if text_is(class, "java/lang/Class") && text_is(name, "forName") && text_is(
        descriptor,
        "(Ljava/lang/String;)Ljava/lang/Class;",
    ) {
        Some(NativeMethod::ClassForName)
    } else if text_is(class, "java/lang/Class") && text_is(name, "getMethod") && text_is(
        descriptor,
        "(Ljava/lang/String;[Ljava/lang/Class;)Ljava/lang/reflect/Method;",
    ) {
        Some(NativeMethod::ClassGetMethod)
    } else if text_is(class, "java/lang/reflect/Method") && text_is(name, "invoke") && text_is(
        descriptor,
        "(Ljava/lang/Object;[Ljava/lang/Object;)Ljava/lang/Object;",
    ) {
        Some(NativeMethod::MethodInvoke)
    } else {
        None
    }
}

/// The classes that the machine brings along, in the order of their handles.
pub open spec fn builtin_table() -> Seq<ClassDataModel> {
    seq![
        ClassDataModel {
            classpath: "java/lang/Object"@,
            superclasspath: ""@,
            methods: seq![
                MemberDataModel { name: "<init>"@, javadesc: "()V"@ },
            ],
            fields: Seq::<MemberDataModel>::empty(),
        },
        ClassDataModel {
            classpath: "java/lang/String"@,
            superclasspath: ""@,
            methods: seq![
                MemberDataModel { name: "<init>"@, javadesc: "()V"@ },
                MemberDataModel { name: "<init>"@, javadesc: "([C)V"@ },
                MemberDataModel {
                    name: "split"@,
                    javadesc: "(Ljava/lang/String;)[Ljava/lang/String;"@,
                },
                MemberDataModel { name: "equals"@, javadesc: "(Ljava/lang/Object;)Z"@ },
            ],
            fields: seq![
                MemberDataModel { name: "value"@, javadesc: "[C"@ },
            ],
        },
        ClassDataModel {
            classpath: "java/lang/System"@,
            superclasspath: ""@,
            methods: seq![
                MemberDataModel { name: "<init>"@, javadesc: "()V"@ },
                MemberDataModel {
                    name: "getProperty"@,
                    javadesc: "(Ljava/lang/String;)Ljava/lang/String;"@,
                },
            ],
            fields: Seq::<MemberDataModel>::empty(),
        },
        ClassDataModel {
            classpath: "java/lang/Throwable"@,
            superclasspath: ""@,
            methods: seq![
                MemberDataModel { name: "<init>"@, javadesc: "()V"@ },
            ],
            fields: Seq::<MemberDataModel>::empty(),
        },
        ClassDataModel {
            classpath: "java/lang/Exception"@,
            superclasspath: "java/lang/Throwable"@,
            methods: seq![
                MemberDataModel { name: "<init>"@, javadesc: "()V"@ },
            ],
            fields: Seq::<MemberDataModel>::empty(),
        },
        ClassDataModel {
            classpath: "java/lang/RuntimeException"@,
            superclasspath: "java/lang/Exception"@,
            methods: seq![
                MemberDataModel { name: "<init>"@, javadesc: "()V"@ },
            ],
            fields: Seq::<MemberDataModel>::empty(),
        },
        ClassDataModel {
            classpath: "java/lang/IllegalStateException"@,
            superclasspath: "java/lang/RuntimeException"@,
            methods: seq![
                MemberDataModel { name: "<init>"@, javadesc: "()V"@ },
            ],
            fields: Seq::<MemberDataModel>::empty(),
        },
        ClassDataModel {
            classpath: "java/lang/Integer"@,
            superclasspath: "java/lang/Number"@,
            methods: seq![
                MemberDataModel { name: "parseInt"@, javadesc: "(Ljava/lang/String;)I"@ },
            ],
            fields: Seq::<MemberDataModel>::empty(),
        },
        ClassDataModel {
            classpath: "java/lang/Class"@,
            superclasspath: ""@,
            methods: seq![
                MemberDataModel { name: "<init>"@, javadesc: "()V"@ },
                MemberDataModel {
                    name: "forName"@,
                    javadesc: "(Ljava/lang/String;)Ljava/lang/Class;"@,
                },
                MemberDataModel {
                    name: "getMethod"@,
                    javadesc: "(Ljava/lang/String;[Ljava/lang/Class;)Ljava/lang/reflect/Method;"@,
                },
            ],
            fields: seq![
                MemberDataModel { name: "classpath"@, javadesc: "Ljava/lang/String;"@ },
            ],
        },
        ClassDataModel {
            classpath: "java/lang/reflect/Method"@,
            superclasspath: "java/lang/reflect/Executable"@,
            methods: seq![
                MemberDataModel {
                    name: "invoke"@,
                    javadesc: "(Ljava/lang/Object;[Ljava/lang/Object;)Ljava/lang/Object;"@,
                },
            ],
            fields: seq![
                MemberDataModel { name: "classpath"@, javadesc: "Ljava/lang/String;"@ },
                MemberDataModel { name: "methodname"@, javadesc: "Ljava/lang/String;"@ },
                MemberDataModel { name: "methoddesc"@, javadesc: "Ljava/lang/String;"@ },
            ],
        },
        ClassDataModel {
            classpath: "java/nio/file/Path"@,
            superclasspath: ""@,
            methods: Seq::<MemberDataModel>::empty(),
            fields: Seq::<MemberDataModel>::empty(),
        },
    ]
}

/// A member of the name `name` and the descriptor `javadesc`.
fn member(name: &str, javadesc: &str) -> (r: MemberData)
    ensures
        r@ == (MemberDataModel { name: name@, javadesc: javadesc@ }),
{
    MemberData { name: name.to_owned(), javadesc: javadesc.to_owned() }
}

/// The classes that the machine brings along, in the order of their handles.
pub fn expose_classes() -> (r: Vec<ClassData>)
    ensures
        r.deep_view() == builtin_table(),
{
    let mut out: Vec<ClassData> = Vec::new();
    let mut methods: Vec<MemberData> = Vec::new();
    methods.push(member("<init>", "()V"));
    let mut fields: Vec<MemberData> = Vec::new();
    let data = ClassData {
        classpath: "java/lang/Object".to_owned(),
        superclasspath: "".to_owned(),
        methods,
        fields,
    };
    assert(data@.methods =~= builtin_table()[0].methods);
    assert(data@.fields =~= builtin_table()[0].fields);
    assert(data@ == builtin_table()[0]);
    out.push(data);
    let mut methods: Vec<MemberData> = Vec::new();
    methods.push(member("<init>", "()V"));
    methods.push(member("<init>", "([C)V"));
    methods.push(member("split", "(Ljava/lang/String;)[Ljava/lang/String;"));
    methods.push(member("equals", "(Ljava/lang/Object;)Z"));
    let mut fields: Vec<MemberData> = Vec::new();
    fields.push(member("value", "[C"));
    let data = ClassData {
        classpath: "java/lang/String".to_owned(),
        superclasspath: "".to_owned(),
        methods,
        fields,
    };
    assert(data@.methods =~= builtin_table()[1].methods);
    assert(data@.fields =~= builtin_table()[1].fields);
    assert(data@ == builtin_table()[1]);
    out.push(data);
    let mut methods: Vec<MemberData> = Vec::new();
    methods.push(member("<init>", "()V"));
    methods.push(member("getProperty", "(Ljava/lang/String;)Ljava/lang/String;"));
    let mut fields: Vec<MemberData> = Vec::new();
    let data = ClassData {
        classpath: "java/lang/System".to_owned(),
        superclasspath: "".to_owned(),
        methods,
        fields,
    };
    assert(data@.methods =~= builtin_table()[2].methods);
    assert(data@.fields =~= builtin_table()[2].fields);
    assert(data@ == builtin_table()[2]);
    out.push(data);
    let mut methods: Vec<MemberData> = Vec::new();
    methods.push(member("<init>", "()V"));
    let mut fields: Vec<MemberData> = Vec::new();
    let data = ClassData {
        classpath: "java/lang/Throwable".to_owned(),
        superclasspath: "".to_owned(),
        methods,
        fields,
    };
    assert(data@.methods =~= builtin_table()[3].methods);
    assert(data@.fields =~= builtin_table()[3].fields);
    assert(data@ == builtin_table()[3]);
    out.push(data);
    let mut methods: Vec<MemberData> = Vec::new();
    methods.push(member("<init>", "()V"));
    let mut fields: Vec<MemberData> = Vec::new();
    let data = ClassData {
        classpath: "java/lang/Exception".to_owned(),
        superclasspath: "java/lang/Throwable".to_owned(),
        methods,
        fields,
    };
    assert(data@.methods =~= builtin_table()[4].methods);
    assert(data@.fields =~= builtin_table()[4].fields);
    assert(data@ == builtin_table()[4]);
    out.push(data);
    let mut methods: Vec<MemberData> = Vec::new();
    methods.push(member("<init>", "()V"));
    let mut fields: Vec<MemberData> = Vec::new();
    let data = ClassData {
        classpath: "java/lang/RuntimeException".to_owned(),
        superclasspath: "java/lang/Exception".to_owned(),
        methods,
        fields,
    };
    assert(data@.methods =~= builtin_table()[5].methods);
    assert(data@.fields =~= builtin_table()[5].fields);
    assert(data@ == builtin_table()[5]);
    out.push(data);
    let mut methods: Vec<MemberData> = Vec::new();
    methods.push(member("<init>", "()V"));
    let mut fields: Vec<MemberData> = Vec::new();
    let data = ClassData {
        classpath: "java/lang/IllegalStateException".to_owned(),
        superclasspath: "java/lang/RuntimeException".to_owned(),
        methods,
        fields,
    };
    assert(data@.methods =~= builtin_table()[6].methods);
    assert(data@.fields =~= builtin_table()[6].fields);
    assert(data@ == builtin_table()[6]);
    out.push(data);
    let mut methods: Vec<MemberData> = Vec::new();
    methods.push(member("parseInt", "(Ljava/lang/String;)I"));
    let mut fields: Vec<MemberData> = Vec::new();
    let data = ClassData {
        classpath: "java/lang/Integer".to_owned(),
        superclasspath: "java/lang/Number".to_owned(),
        methods,
        fields,
    };
    assert(data@.methods =~= builtin_table()[7].methods);
    assert(data@.fields =~= builtin_table()[7].fields);
    assert(data@ == builtin_table()[7]);
    out.push(data);
    let mut methods: Vec<MemberData> = Vec::new();
    methods.push(member("<init>", "()V"));
    methods.push(member("forName", "(Ljava/lang/String;)Ljava/lang/Class;"));
    methods.push(
        member(
            "getMethod",
            "(Ljava/lang/String;[Ljava/lang/Class;)Ljava/lang/reflect/Method;",
        ),
    );
    let mut fields: Vec<MemberData> = Vec::new();
    fields.push(member("classpath", "Ljava/lang/String;"));
    let data = ClassData {
        classpath: "java/lang/Class".to_owned(),
        superclasspath: "".to_owned(),
        methods,
        fields,
    };
    assert(data@.methods =~= builtin_table()[8].methods);
    assert(data@.fields =~= builtin_table()[8].fields);
    assert(data@ == builtin_table()[8]);
    out.push(data);
    let mut methods: Vec<MemberData> = Vec::new();
    methods.push(member("invoke", "(Ljava/lang/Object;[Ljava/lang/Object;)Ljava/lang/Object;"));
    let mut fields: Vec<MemberData> = Vec::new();
    fields.push(member("classpath", "Ljava/lang/String;"));
    fields.push(member("methodname", "Ljava/lang/String;"));
    fields.push(member("methoddesc", "Ljava/lang/String;"));
    let data = ClassData {
        classpath: "java/lang/reflect/Method".to_owned(),
        superclasspath: "java/lang/reflect/Executable".to_owned(),
        methods,
        fields,
    };
    assert(data@.methods =~= builtin_table()[9].methods);
    assert(data@.fields =~= builtin_table()[9].fields);
    assert(data@ == builtin_table()[9]);
    out.push(data);
    let mut methods: Vec<MemberData> = Vec::new();
    let mut fields: Vec<MemberData> = Vec::new();
    let data = ClassData {
        classpath: "java/nio/file/Path".to_owned(),
        superclasspath: "".to_owned(),
        methods,
        fields,
    };
    assert(data@.methods =~= builtin_table()[10].methods);
    assert(data@.fields =~= builtin_table()[10].fields);
    assert(data@ == builtin_table()[10]);
    out.push(data);
    assert(out.deep_view() =~= builtin_table());
    out
}

/// The pool entry that holds the text `text`. Its length is the number of
/// characters, or 65535 where there are more.
pub open spec fn text_entry(text: Seq<char>) -> PoolEntry {
    PoolEntry::Utf8 {
        length: if text.len() > 0xffff {
            0xffffu16
        } else {
            text.len() as u16
        },
        bytes: text,
    }
}

/// The pool entries for `members`: for each, its name and then its
/// descriptor.
pub open spec fn member_entries(members: Seq<MemberDataModel>) -> Seq<PoolEntry> {
    Seq::new(
        2 * members.len(),
        |i: int|
            if i % 2 == 0 {
                text_entry(members[i / 2].name)
            } else {
                text_entry(members[i / 2].javadesc)
            },
    )
}

/// The `n` fields or methods whose names and descriptors stand in the pool
/// from the index `base` on, two entries for each.
pub open spec fn member_infos(base: int, n: nat) -> Seq<MemberModel> {
    Seq::new(
        n,
        |i: int|
            MemberModel {
                access_flags: 0,
                name_index: (base + 2 * i) as u16,
                descriptor_index: (base + 2 * i + 1) as u16,
                attribute_count: 0,
                attribute_info: Seq::<AttributeModel>::empty(),
            },
    )
}

/// The name of the class above `d`: the one that `d` names, or
/// `java/lang/Object` where it names none.
pub open spec fn super_name(d: ClassDataModel) -> Seq<char> {
    if d.superclasspath.len() == 0 {
        root_class()
    } else {
        d.superclasspath
    }
}

/// The first entries of the pool of `d`: the unused entry 0, the class and
/// its name, and, for every class but `java/lang/Object`, the class above it
/// and that one's name.
pub open spec fn head_entries(d: ClassDataModel) -> Seq<PoolEntry> {
    if d.classpath == root_class() {
        seq![PoolEntry::Dummy, PoolEntry::Class { name_index: 2 }, text_entry(d.classpath)]
    } else {
        seq![
            PoolEntry::Dummy,
            PoolEntry::Class { name_index: 2 },
            text_entry(d.classpath),
            PoolEntry::Class { name_index: 4 },
            text_entry(super_name(d)),
        ]
    }
}

/// The class that describes `d` as a class file would: a pool that holds its
/// name, the name of the class above it and the names and descriptors of its
/// fields and methods, and a field or a method for each of those, without
/// attributes.
pub open spec fn synthesized(d: ClassDataModel) -> ClassModel {
    let head = head_entries(d);
    let pool = head + member_entries(d.fields) + member_entries(d.methods);
    ClassModel {
        magic: CLASS_MAGIC,
        minor: 0,
        major: 61,
        constant_count: (pool.len() - 1) as u16,
        constant_pool: pool,
        access_flags: 0,
        this_class: 1,
        super_class: if d.classpath == root_class() {
            0
        } else {
            3
        },
        interfaces_count: 0,
        interfaces: Seq::<u16>::empty(),
        fields_count: d.fields.len() as u16,
        fields: member_infos(head.len() as int, d.fields.len()),
        methods_count: d.methods.len() as u16,
        methods: member_infos((head.len() + 2 * d.fields.len()) as int, d.methods.len()),
        attribute_count: 0,
        attributes: Seq::<AttributeModel>::empty(),
        handle: None,
    }
}

/// Whether the pool of `d` has an index of 16 bits for each of its entries.
pub open spec fn fits_pool(d: ClassDataModel) -> bool {
    5 + 2 * (d.fields.len() + d.methods.len()) <= 0xffff
}

/// A class that the machine brings along describes itself as a class from a
/// class file does: its pool names the class and the class above it, each
/// field and each method goes by its name and its descriptor, and no method
/// has code.
pub proof fn lemma_synthesized_describes(d: ClassDataModel)
    requires
        fits_pool(d),
    ensures
        ({
            let c = synthesized(d);
            &&& class_name_at(c.constant_pool, c.this_class as int) == Some(d.classpath)
            &&& (c.super_class == 0 <==> d.classpath == root_class())
            &&& c.super_class != 0 ==> class_name_at(c.constant_pool, c.super_class as int) == Some(
                super_name(d),
            )
            &&& c.fields.len() == d.fields.len()
            &&& c.methods.len() == d.methods.len()
            &&& forall|i: int|
                0 <= i < d.fields.len() ==> member_matches(
                    c.constant_pool,
                    #[trigger] c.fields[i],
                    d.fields[i].name,
                    d.fields[i].javadesc,
                )
            &&& forall|i: int|
                0 <= i < d.methods.len() ==> member_matches(
                    c.constant_pool,
                    #[trigger] c.methods[i],
                    d.methods[i].name,
                    d.methods[i].javadesc,
                ) && code_attribute(c.methods[i].attribute_info) is None
        }),
{
    let c = synthesized(d);
    let head = head_entries(d);
    let fields = member_entries(d.fields);
    let methods = member_entries(d.methods);
    let pool = c.constant_pool;
    assert(pool == head + fields + methods);
    assert(pool[1] == head[1]);
    assert(pool[2] == head[2]);
    if d.classpath != root_class() {
        assert(pool[3] == head[3]);
        assert(pool[4] == head[4]);
    }
    assert forall|i: int| 0 <= i < d.fields.len() implies member_matches(
        pool,
        #[trigger] c.fields[i],
        d.fields[i].name,
        d.fields[i].javadesc,
    ) by {
        let at = head.len() + 2 * i;
        assert(pool[at] == fields[2 * i]);
        assert(pool[at + 1] == fields[2 * i + 1]);
        assert((2 * i) / 2 == i && (2 * i + 1) / 2 == i);
        assert(c.fields[i].name_index == at);
        assert(c.fields[i].descriptor_index == at + 1);
    }
    assert forall|i: int| 0 <= i < d.methods.len() implies member_matches(
        pool,
        #[trigger] c.methods[i],
        d.methods[i].name,
        d.methods[i].javadesc,
    ) && code_attribute(c.methods[i].attribute_info) is None by {
        let at = head.len() + 2 * d.fields.len() + 2 * i;
        assert(pool[at] == methods[2 * i]);
        assert(pool[at + 1] == methods[2 * i + 1]);
        assert((2 * i) / 2 == i && (2 * i + 1) / 2 == i);
        assert(c.methods[i].name_index == at);
        assert(c.methods[i].descriptor_index == at + 1);
    }
}

/// The pool entry that holds the text `text`.
fn text_entry_of(text: &String) -> (r: ConstantsPoolInfo)
    ensures
        r@ == text_entry(text@),
{
    let n = text.as_str().unicode_len();
    let length: u16 = if n > 0xffff {
        0xffff
    } else {
        n as u16
    };
    ConstantsPoolInfo::Utf8 { length, bytes: text.clone() }
}

/// Adds the pool entries for `members` to `pool`.
fn push_member_entries(pool: &mut Vec<ConstantsPoolInfo>, members: &Vec<MemberData>)
    ensures
        final(pool).deep_view() == old(pool).deep_view() + member_entries(members.deep_view()),
{
    let ghost before = pool.deep_view();
    let ghost all = members.deep_view();
    let mut i: usize = 0;
    assert(before + member_entries(all.take(0)) == before);
    while i < members.len()
        invariant
            i <= members.len(),
            all == members.deep_view(),
            pool.deep_view() == before + member_entries(all.take(i as int)),
        decreases members.len() - i,
    {
        let ghost so_far = pool.deep_view();
        assert(all[i as int] == members[i as int]@);
        let name = text_entry_of(&members[i].name);
        let javadesc = text_entry_of(&members[i].javadesc);
        let ghost a = name@;
        let ghost b = javadesc@;
        pool.push(name);
        pool.push(javadesc);
        proof {
            assert(pool.deep_view() == so_far.push(a).push(b));
            assert(member_entries(all.take(i + 1)) == member_entries(all.take(i as int)).push(
                a,
            ).push(b));
        }
        i = i + 1;
    }
    assert(all.take(all.len() as int) == all);
}

/// The `n` fields whose names and descriptors stand in the pool from the
/// index `base` on.
fn field_infos(base: usize, n: usize) -> (r: Vec<FieldInfo>)
    requires
        base + 2 * n <= 0xffff,
    ensures
        r.deep_view() == member_infos(base as int, n as nat),
{
    let mut out: Vec<FieldInfo> = Vec::new();
    let mut i: usize = 0;
    while i < n
        invariant
            i <= n,
            base + 2 * n <= 0xffff,
            out.deep_view() == member_infos(base as int, i as nat),
        decreases n - i,
    {
        let ghost so_far = out.deep_view();
        let info = FieldInfo {
            access_flags: 0,
            name_index: (base + 2 * i) as u16,
            descriptor_index: (base + 2 * i + 1) as u16,
            attribute_count: 0,
            attribute_info: Vec::new(),
        };
        let ghost model = info@;
        assert(model.attribute_info == Seq::<AttributeModel>::empty());
        out.push(info);
        assert(out.deep_view() == so_far.push(model));
        i = i + 1;
    }
    out
}

/// The `n` methods whose names and descriptors stand in the pool from the
/// index `base` on.
fn method_infos(base: usize, n: usize) -> (r: Vec<MethodInfo>)
    requires
        base + 2 * n <= 0xffff,
    ensures
        r.deep_view() == member_infos(base as int, n as nat),
{
    let mut out: Vec<MethodInfo> = Vec::new();
    let mut i: usize = 0;
    while i < n
        invariant
            i <= n,
            base + 2 * n <= 0xffff,
            out.deep_view() == member_infos(base as int, i as nat),
        decreases n - i,
    {
        let ghost so_far = out.deep_view();
        let info = MethodInfo {
            access_flags: 0,
            name_index: (base + 2 * i) as u16,
            descriptor_index: (base + 2 * i + 1) as u16,
            attribute_count: 0,
            attribute_info: Vec::new(),
        };
        let ghost model = info@;
        assert(model.attribute_info == Seq::<AttributeModel>::empty());
        out.push(info);
        assert(out.deep_view() == so_far.push(model));
        i = i + 1;
    }
    out
}

/// The class that describes `data` as a class file would.
pub fn synthesize(data: &ClassData) -> (r: ClassFile)
    requires
        fits_pool(data@),
    ensures
        r@ == synthesized(data@),
{
    let is_root = text_is(data.classpath.as_str(), "java/lang/Object");
    let mut pool: Vec<ConstantsPoolInfo> = Vec::new();
    pool.push(ConstantsPoolInfo::Dummy);
    pool.push(ConstantsPoolInfo::Class { name_index: 2 });
    pool.push(text_entry_of(&data.classpath));
    if !is_root {
        pool.push(ConstantsPoolInfo::Class { name_index: 4 });
        if data.superclasspath.as_str().unicode_len() == 0 {
            let root = "java/lang/Object".to_owned();
            pool.push(text_entry_of(&root));
        } else {
            pool.push(text_entry_of(&data.superclasspath));
        }
    }
    assert(pool.deep_view() == head_entries(data@));
    let base = pool.len();
    push_member_entries(&mut pool, &data.fields);
    push_member_entries(&mut pool, &data.methods);
    let fields = field_infos(base, data.fields.len());
    let methods = method_infos(base + 2 * data.fields.len(), data.methods.len());
    let r = ClassFile {
        magic: CLASS_MAGIC,
        minor: 0,
        major: 61,
        constant_count: (pool.len() - 1) as u16,
        constant_pool: pool,
        access_flags: 0,
        this_class: 1,
        super_class: if is_root {
            0
        } else {
            3
        },
        interfaces_count: 0,
        interfaces: Vec::new(),
        fields_count: data.fields.len() as u16,
        fields,
        methods_count: data.methods.len() as u16,
        methods,
        attribute_count: 0,
        attributes: Vec::new(),
        handle: None,
    };
    assert(r@.attributes == Seq::<AttributeModel>::empty());
    r
}

/// What a method of the host hands back: a value, or a frame of bytecode to
/// run in its place.
#[derive(Debug)]
pub enum NativeOutcome {
    Return(Argument),
    Call(BytecodeFrame),
}

/// The mathematical value of a [`NativeOutcome`].
pub enum NativeResult {
    Return(Slot),
    Call(FrameModel),
}

impl View for NativeOutcome {
    type V = NativeResult;

    open spec fn view(&self) -> NativeResult {
        match self {
            NativeOutcome::Return(value) => NativeResult::Return(value@),
            NativeOutcome::Call(frame) => NativeResult::Call(frame@),
        }
    }
}

/// The slots that hold the characters of `text`.
pub open spec fn char_slots(text: Seq<char>) -> Seq<Slot> {
    Seq::new(text.len(), |i: int| Slot { value: text[i] as int, kind: Kind::Char })
}

/// The slot that refers to the instance behind `handle` of the class
/// `classpath`.
pub open spec fn instance_ref(handle: u32, classpath: Seq<char>) -> Slot {
    Slot { value: handle as int, kind: Kind::ClassReference { classpath } }
}

/// The slot that refers to the array behind `handle`.
pub open spec fn array_ref(handle: u32) -> Slot {
    Slot { value: handle as int, kind: Kind::ArrayReference }
}

/// The argument `index` of a method of the host, which has to be a
/// reference.
pub open spec fn ref_argument(args: Seq<Slot>, index: int) -> Result<u32, VastatrixError> {
    if index >= args.len() {
        Err(VastatrixError::MissingArgument)
    } else if !args[index].is_ref() {
        Err(VastatrixError::TypeMismatch)
    } else {
        Ok(args[index].value as u32)
    }
}

/// The slots of the array that the field `value` of the string behind
/// `handle` refers to.
pub open spec fn string_slots(vm: VmModel, handle: u32) -> Result<Seq<Slot>, VastatrixError> {
    match vm.get_field(handle, "value"@) {
        Err(e) => Err(e),
        Ok(slot) => if !slot.is_ref() {
            Err(VastatrixError::TypeMismatch)
        } else {
            match vm.array(slot.value) {
                Err(e) => Err(e),
                Ok((_, elements)) => Ok(elements),
            }
        },
    }
}

/// The constructor of the empty string: the string `args[0]` gets a new,
/// empty array of characters as its `value`.
pub open spec fn string_init(vm: VmModel, args: Seq<Slot>) -> Result<VmModel, VastatrixError> {
    match ref_argument(args, 0) {
        Err(e) => Err(e),
        Ok(this) => match vm.create_array(Seq::<Slot>::empty(), Kind::Char) {
            Err(e) => Err(e),
            Ok((after, array)) => after.put_field(this, "value"@, array_ref(array)),
        },
    }
}

/// The constructor of a string from an array of characters: the string
/// `args[0]` gets a new array with the slots of the array `args[1]` as its
/// `value`.
pub open spec fn string_init_chars(vm: VmModel, args: Seq<Slot>) -> Result<
    VmModel,
    VastatrixError,
> {
    match ref_argument(args, 0) {
        Err(e) => Err(e),
        Ok(this) => match ref_argument(args, 1) {
            Err(e) => Err(e),
            Ok(from) => if !(args[1].kind is ArrayReference) {
                Err(VastatrixError::TypeMismatch)
            } else {
                match vm.array(from as int) {
                    Err(e) => Err(e),
                    Ok((_, elements)) => match vm.create_array(elements, Kind::Char) {
                        Err(e) => Err(e),
                        Ok((after, array)) => after.put_field(this, "value"@, array_ref(array)),
                    },
                }
            },
        },
    }
}

/// Making a string of the text `text`: an instance of `java/lang/String`
/// whose `value` is an array with the characters of the text, built by the
/// constructor from an array of characters. The result is the heap and the
/// reference to the string.
pub open spec fn make_string(vm: VmModel, text: Seq<char>) -> Result<(VmModel, Slot), VastatrixError> {
    match vm.load(string_class()) {
        Err(e) => Err(e),
        Ok((vm1, class)) => match vm1.prepare_instance(class) {
            Err(e) => Err(e),
            Ok((vm2, instance)) => match vm2.create_array(char_slots(text), Kind::Char) {
                Err(e) => Err(e),
                Ok((vm3, array)) => match string_init_chars(
                    vm3,
                    seq![instance_ref(instance, string_class()), array_ref(array)],
                ) {
                    Err(e) => Err(e),
                    Ok(vm4) => Ok((vm4, instance_ref(instance, string_class()))),
                },
            },
        },
    }
}

/// `equals` of strings: whether the arrays behind the `value` of the strings
/// `args[0]` and `args[1]` hold the same slots.
pub open spec fn string_equals(vm: VmModel, args: Seq<Slot>) -> Result<Slot, VastatrixError> {
    match ref_argument(args, 0) {
        Err(e) => Err(e),
        Ok(this) => match ref_argument(args, 1) {
            Err(e) => Err(e),
            Ok(other) => match string_slots(vm, this) {
                Err(e) => Err(e),
                Ok(a) => match string_slots(vm, other) {
                    Err(e) => Err(e),
                    Ok(b) => Ok(
                        Slot {
                            value: if a == b {
                                1
                            } else {
                                0
                            },
                            kind: Kind::Boolean,
                        },
                    ),
                },
            },
        },
    }
}

/// `forName`: a new instance of `java/lang/Class` whose `classpath` is the
/// string `args[0]`.
pub open spec fn class_for_name(vm: VmModel, args: Seq<Slot>) -> Result<
    (VmModel, Slot),
    VastatrixError,
> {
    if args.len() < 1 {
        Err(VastatrixError::MissingArgument)
    } else {
        match vm.load("java/lang/Class"@) {
            Err(e) => Err(e),
            Ok((vm1, class)) => match vm1.prepare_instance(class) {
                Err(e) => Err(e),
                Ok((vm2, instance)) => match vm2.put_field(instance, "classpath"@, args[0]) {
                    Err(e) => Err(e),
                    Ok(vm3) => Ok((vm3, instance_ref(instance, "java/lang/Class"@))),
                },
            },
        }
    }
}

/// The slot of the field `classpath` of the last of the instances that
/// `elements` refer to, or `default` where there are none.
pub open spec fn last_classpath(vm: VmModel, elements: Seq<Slot>, default: Slot) -> Result<
    Slot,
    VastatrixError,
>
    decreases elements.len(),
{
    if elements.len() == 0 {
        Ok(default)
    } else {
        match last_classpath(vm, elements.drop_last(), default) {
            Err(e) => Err(e),
            Ok(_) => if !elements.last().is_ref() {
                Err(VastatrixError::TypeMismatch)
            } else {
                vm.get_field(elements.last().value as u32, "classpath"@)
            },
        }
    }
}

/// The name of the class of methods.
pub open spec fn method_class() -> Seq<char> {
    "java/lang/reflect/Method"@
}

/// `getMethod`: a new instance of `java/lang/reflect/Method`. Its
/// `classpath` is that of the class `args[0]`, its `methodname` is the string
/// `args[1]`, and its `methoddesc` is the `classpath` of the last class in the
/// array `args[2]`, or a reference with the handle 0 where the array is empty.
pub open spec fn class_get_method(vm: VmModel, args: Seq<Slot>) -> Result<
    (VmModel, Slot),
    VastatrixError,
> {
    match ref_argument(args, 0) {
        Err(e) => Err(e),
        Ok(this) => match vm.get_field(this, "classpath"@) {
            Err(e) => Err(e),
            Ok(owner) => match ref_argument(args, 2) {
                Err(e) => Err(e),
                Ok(types) => match vm.array(types as int) {
                    Err(e) => Err(e),
                    Ok((_, elements)) => match last_classpath(
                        vm,
                        elements,
                        instance_ref(0, string_class()),
                    ) {
                        Err(e) => Err(e),
                        Ok(described) => match vm.load(method_class()) {
                            Err(e) => Err(e),
                            Ok((vm1, class)) => match vm1.prepare_instance(class) {
                                Err(e) => Err(e),
                                Ok((vm2, instance)) => store_method(
                                    vm2,
                                    instance,
                                    owner,
                                    args[1],
                                    described,
                                ),
                            },
                        },
                    },
                },
            },
        },
    }
}

/// Writing the three fields of the instance `instance` of
/// `java/lang/reflect/Method`; the result is the heap and the reference to the
/// instance.
pub open spec fn store_method(
    vm: VmModel,
    instance: u32,
    owner: Slot,
    name: Slot,
    described: Slot,
) -> Result<(VmModel, Slot), VastatrixError> {
    match vm.put_field(instance, "classpath"@, owner) {
        Err(e) => Err(e),
        Ok(vm1) => match vm1.put_field(instance, "methodname"@, name) {
            Err(e) => Err(e),
            Ok(vm2) => match vm2.put_field(instance, "methoddesc"@, described) {
                Err(e) => Err(e),
                Ok(vm3) => Ok((vm3, instance_ref(instance, method_class()))),
            },
        },
    }
}

/// The text whose characters have the payloads of `slots` as their codes;
/// `None` where a payload is the code of no character.
pub open spec fn text_of(slots: Seq<Slot>) -> Option<Seq<char>> {
    if forall|i: int|
        0 <= i < slots.len() ==> is_scalar_value((#[trigger] slots[i]).value) {
        Some(Seq::new(slots.len(), |i: int| slots[i].value as char))
    } else {
        None
    }
}

/// The text of the string that the field `name` of the instance behind
/// `handle` refers to.
pub open spec fn text_field(vm: VmModel, handle: u32, name: Seq<char>) -> Result<
    Seq<char>,
    VastatrixError,
> {
    match vm.get_field(handle, name) {
        Err(e) => Err(e),
        Ok(slot) => if !slot.is_ref() {
            Err(VastatrixError::TypeMismatch)
        } else {
            match string_slots(vm, slot.value as u32) {
                Err(e) => Err(e),
                Ok(slots) => match text_of(slots) {
                    Some(text) => Ok(text),
                    None => Err(VastatrixError::TypeMismatch),
                },
            }
        },
    }
}

/// The text `text` with `/` in the place of each `.`.
pub open spec fn with_slashes(text: Seq<char>) -> Seq<char> {
    Seq::new(
        text.len(),
        |i: int|
            if text[i] == '.' {
                '/'
            } else {
                text[i]
            },
    )
}

/// `invoke`: the method that the instance `args[0]` of
/// `java/lang/reflect/Method` describes is to run, without arguments. Its class
/// is the one that `classpath` names, written with `.` or with `/`; its name is
/// `methodname`; its descriptor is `methoddesc` between `(` and `)V`. The class
/// is loaded and has to have the method with code.
pub open spec fn method_invoke(vm: VmModel, args: Seq<Slot>) -> Result<
    (VmModel, FrameModel),
    VastatrixError,
> {
    match ref_argument(args, 0) {
        Err(e) => Err(e),
        Ok(this) => match text_field(vm, this, "classpath"@) {
            Err(e) => Err(e),
            Ok(classpath) => match text_field(vm, this, "methodname"@) {
                Err(e) => Err(e),
                Ok(name) => match text_field(vm, this, "methoddesc"@) {
                    Err(e) => Err(e),
                    Ok(described) => match vm.load(with_slashes(classpath)) {
                        Err(e) => Err(e),
                        Ok((after, class)) => match new_frame(
                            after.classes[class as int],
                            name,
                            seq!['('] + described + seq![')', 'V'],
                        ) {
                            Some(frame) => Ok((after, frame)),
                            None => Err(VastatrixError::NoSuchMethod),
                        },
                    },
                },
            },
        },
    }
}

/// The pieces that the slots `text` fall into when they are cut at each
/// occurrence of `delimiter`, searched from `i` on; the piece that is being
/// cut starts at `start`. An occurrence is taken where it is found first, and
/// the search goes on behind it. An empty delimiter cuts nowhere.
pub open spec fn split_from(text: Seq<Slot>, delimiter: Seq<Slot>, start: int, i: int) -> Seq<
    Seq<Slot>,
>
    decreases text.len() - i,
{
    if delimiter.len() == 0 || i < 0 || i + delimiter.len() > text.len() {
        seq![text.subrange(start, text.len() as int)]
    } else if text.subrange(i, i + delimiter.len()) == delimiter {
        seq![text.subrange(start, i)] + split_from(
            text,
            delimiter,
            i + delimiter.len(),
            i + delimiter.len(),
        )
    } else {
        split_from(text, delimiter, start, i + 1)
    }
}

/// Making a string whose characters are the slots `slots`: a new array with
/// those slots, and a new instance of `java/lang/String` with that array as its
/// `value`.
pub open spec fn store_string(vm: VmModel, slots: Seq<Slot>) -> Result<
    (VmModel, Slot),
    VastatrixError,
> {
    match vm.create_array(slots, Kind::Char) {
        Err(e) => Err(e),
        Ok((vm1, array)) => match vm1.load(string_class()) {
            Err(e) => Err(e),
            Ok((vm2, class)) => match vm2.prepare_instance(class) {
                Err(e) => Err(e),
                Ok((vm3, instance)) => match vm3.put_field(instance, "value"@, array_ref(array)) {
                    Err(e) => Err(e),
                    Ok(vm4) => Ok((vm4, instance_ref(instance, string_class()))),
                },
            },
        },
    }
}

/// Making a string of each of `pieces`, first to last; the result is the
/// heap and the references to the strings.
pub open spec fn store_strings(vm: VmModel, pieces: Seq<Seq<Slot>>) -> Result<
    (VmModel, Seq<Slot>),
    VastatrixError,
>
    decreases pieces.len(),
{
    if pieces.len() == 0 {
        Ok((vm, Seq::<Slot>::empty()))
    } else {
        match store_strings(vm, pieces.drop_last()) {
            Err(e) => Err(e),
            Ok((vm1, refs)) => match store_string(vm1, pieces.last()) {
                Err(e) => Err(e),
                Ok((vm2, r)) => Ok((vm2, refs.push(r))),
            },
        }
    }
}

/// `split`: the string `args[0]` is cut at each occurrence of the string
/// `args[1]`, and each piece becomes a string of its own. The result is a
/// reference to a new array of references to those strings, in the order of
/// the pieces.
pub open spec fn string_split(vm: VmModel, args: Seq<Slot>) -> Result<
    (VmModel, Slot),
    VastatrixError,
> {
    match ref_argument(args, 0) {
        Err(e) => Err(e),
        Ok(this) => match ref_argument(args, 1) {
            Err(e) => Err(e),
            Ok(other) => match string_slots(vm, this) {
                Err(e) => Err(e),
                Ok(text) => match string_slots(vm, other) {
                    Err(e) => Err(e),
                    Ok(delimiter) => match store_strings(vm, split_from(text, delimiter, 0, 0)) {
                        Err(e) => Err(e),
                        Ok((vm1, refs)) => match vm1.create_array(
                            refs,
                            Kind::ClassReference { classpath: string_class() },
                        ) {
                            Err(e) => Err(e),
                            Ok((vm2, array)) => Ok((vm2, array_ref(array))),
                        },
                    },
                },
            },
        },
    }
}

/// The value of the decimal digit `c`.
pub open spec fn digit_value(c: char) -> Option<int> {
    if '0' <= c <= '9' {
        Some(c as int - '0' as int)
    } else {
        None
    }
}

/// The number that the decimal digits `s` stand for; `None` where `s` is
/// empty or holds another character than the digits from `0` to `9`.
pub open spec fn decimal(s: Seq<char>) -> Option<int>
    decreases s.len(),
{
    if s.len() == 0 {
        None
    } else {
        match digit_value(s.last()) {
            None => None,
            Some(d) => if s.len() == 1 {
                Some(d)
            } else {
                match decimal(s.drop_last()) {
                    Some(v) => Some(v * 10 + d),
                    None => None,
                }
            },
        }
    }
}

/// The integer of 32 bits that the text `s` stands for: decimal digits, with
/// a `-` or a `+` before them or without. `None` for any other text, and for
/// a number that does not fit in 32 bits.
pub open spec fn parsed_int(s: Seq<char>) -> Option<int> {
    let signed = s.len() > 0 && (s[0] == '-' || s[0] == '+');
    let digits = if signed {
        s.skip(1)
    } else {
        s
    };
    match decimal(digits) {
        None => None,
        Some(v) => {
            let value = if s.len() > 0 && s[0] == '-' {
                -v
            } else {
                v
            };
            if i32::MIN <= value <= i32::MAX {
                Some(value)
            } else {
                None
            }
        },
    }
}

/// `parseInt`: the integer that the characters of the string `args[0]` stand
/// for.
pub open spec fn integer_parse_int(vm: VmModel, args: Seq<Slot>) -> Result<Slot, VastatrixError> {
    match ref_argument(args, 0) {
        Err(e) => Err(e),
        Ok(this) => match string_slots(vm, this) {
            Err(e) => Err(e),
            Ok(slots) => match text_of(slots) {
                None => Err(VastatrixError::TypeMismatch),
                Some(text) => match parsed_int(text) {
                    Some(v) => Ok(Slot::of_int(v)),
                    None => Err(VastatrixError::NumberFormat),
                },
            },
        },
    }
}

/// A run of digits with another character in it stands for no number.
pub proof fn lemma_decimal_needs_digits(s: Seq<char>, k: int)
    requires
        0 <= k < s.len(),
        digit_value(s[k]) is None,
    ensures
        decimal(s) is None,
    decreases s.len(),
{
    if k < s.len() - 1 {
        lemma_decimal_needs_digits(s.drop_last(), k);
    }
}

/// A run of digits stands for a number that is no smaller than the number
/// that any of its beginnings stands for, and that is not negative.
pub proof fn lemma_decimal_grows(s: Seq<char>, n: int)
    requires
        1 <= n <= s.len(),
        decimal(s) is Some,
    ensures
        decimal(s.take(n)) is Some,
        0 <= decimal(s.take(n))->0 <= decimal(s)->0,
    decreases s.len(),
{
    if n == s.len() {
        assert(s.take(n) == s);
        if s.len() > 1 {
            lemma_decimal_grows(s.drop_last(), n - 1);
            assert(s.drop_last().take(n - 1) == s.drop_last());
        }
    } else {
        lemma_decimal_grows(s.drop_last(), n);
        assert(s.drop_last().take(n) == s.take(n));
    }
}

/// The text that the machine has for every property: the release of the
/// platform whose classes it brings along.
pub open spec fn property_text() -> Seq<char> {
    "17"@
}

/// What the method `method` of the host does with the arguments `args`: the
/// heap after it, and the value it hands back or the frame to run in its
/// place.
pub open spec fn native(vm: VmModel, method: NativeMethod, args: Seq<Slot>) -> Result<
    (VmModel, NativeResult),
    VastatrixError,
> {
    match method {
        NativeMethod::Init => Ok((vm, NativeResult::Return(Slot::void()))),
        NativeMethod::StringInit => match string_init(vm, args) {
            Err(e) => Err(e),
            Ok(after) => Ok((after, NativeResult::Return(Slot::void()))),
        },
        NativeMethod::StringInitChars => match string_init_chars(vm, args) {
            Err(e) => Err(e),
            Ok(after) => Ok((after, NativeResult::Return(Slot::void()))),
        },
        NativeMethod::StringSplit => match string_split(vm, args) {
            Err(e) => Err(e),
            Ok((after, slot)) => Ok((after, NativeResult::Return(slot))),
        },
        NativeMethod::StringEquals => match string_equals(vm, args) {
            Err(e) => Err(e),
            Ok(slot) => Ok((vm, NativeResult::Return(slot))),
        },
        NativeMethod::SystemGetProperty => match make_string(vm, property_text()) {
            Err(e) => Err(e),
            Ok((after, slot)) => Ok((after, NativeResult::Return(slot))),
        },
        NativeMethod::IntegerParseInt => match integer_parse_int(vm, args) {
            Err(e) => Err(e),
            Ok(slot) => Ok((vm, NativeResult::Return(slot))),
        },
        NativeMethod::ClassForName => match class_for_name(vm, args) {
            Err(e) => Err(e),
            Ok((after, slot)) => Ok((after, NativeResult::Return(slot))),
        },
        NativeMethod::ClassGetMethod => match class_get_method(vm, args) {
            Err(e) => Err(e),
            Ok((after, slot)) => Ok((after, NativeResult::Return(slot))),
        },
        NativeMethod::MethodInvoke => match method_invoke(vm, args) {
            Err(e) => Err(e),
            Ok((after, frame)) => Ok((after, NativeResult::Call(frame))),
        },
    }
}

/// The argument `index` of a method of the host, which has to be a
/// reference.
fn ref_argument_of(args: &Vec<Argument>, index: usize) -> (r: Result<u32, VastatrixError>)
    ensures
        r == ref_argument(args.deep_view(), index as int),
{
    if index >= args.len() {
        return Err(VastatrixError::MissingArgument);
    }
    assert(args.deep_view()[index as int] == args[index as int]@);
    if !args[index].is_ref() {
        return Err(VastatrixError::TypeMismatch);
    }
    Ok(args[index].reference())
}

/// A reference to the instance behind `handle` of the class `classpath`.
pub fn instance_ref_of(handle: u32, classpath: &str) -> (r: Argument)
    ensures
        r@ == instance_ref(handle, classpath@),
{
    Argument::new(handle, MethodType::ClassReference { classpath: classpath.to_owned() })
}

/// A reference to the array behind `handle`.
pub fn array_ref_of(handle: u32) -> (r: Argument)
    ensures
        r@ == array_ref(handle),
{
    Argument::new(handle, MethodType::ArrayReference)
}

/// The code of the character `c`.
pub fn char_code(c: char) -> (r: u32)
    ensures
        r as int == c as int,
{
    c as u32
}

/// The slots that hold the characters of `text`.
pub fn char_slots_of(text: &str) -> (r: Vec<Argument>)
    ensures
        r.deep_view() == char_slots(text@),
{
    let chars = chars_of(text);
    let mut out: Vec<Argument> = Vec::new();
    let mut i: usize = 0;
    while i < chars.len()
        invariant
            i <= chars.len(),
            chars@ == text@,
            out.len() == i,
            forall|k: int|
                0 <= k < i ==> (#[trigger] out[k])@ == (Slot {
                    value: text@[k] as int,
                    kind: Kind::Char,
                }),
        decreases chars.len() - i,
    {
        let c = chars[i];
        out.push(Argument::new(char_code(c), MethodType::Char));
        i = i + 1;
    }
    assert(out.deep_view() =~= char_slots(text@));
    out
}

/// The slots of the array that the field `value` of the string behind
/// `handle` refers to.
fn string_slots_of(vm: &Vastatrix, handle: u32) -> (r: Result<Vec<Argument>, VastatrixError>)
    ensures
        match string_slots(vm@, handle) {
            Ok(slots) => r matches Ok(out) && out.deep_view() == slots,
            Err(e) => r matches Err(x) && x == e,
        },
{
    let slot = vm.get_field(handle, "value")?;
    if !slot.is_ref() {
        return Err(VastatrixError::TypeMismatch);
    }
    let array = vm.get_array(slot.reference() as usize)?;
    Ok(clone_slots(&array.1))
}

/// Runs the constructor of the empty string.
fn run_string_init(vm: &mut Vastatrix, args: &Vec<Argument>) -> (r: Result<(), VastatrixError>)
    ensures
        match string_init(old(vm)@, args.deep_view()) {
            Ok(after) => r is Ok && final(vm)@ == after,
            Err(e) => r == Err::<(), VastatrixError>(e),
        },
{
    proof {
        use_type_invariant(&*vm);
    }
    let this = ref_argument_of(args, 0)?;
    let empty: Vec<Argument> = Vec::new();
    assert(empty.deep_view() == Seq::<Slot>::empty());
    let array = vm.create_array(empty, MethodType::Char)?;
    vm.put_field(this, "value".to_owned(), array_ref_of(array))
}

/// Runs the constructor of a string from an array of characters.
fn run_string_init_chars(vm: &mut Vastatrix, args: &Vec<Argument>) -> (r: Result<
    (),
    VastatrixError,
>)
    ensures
        match string_init_chars(old(vm)@, args.deep_view()) {
            Ok(after) => r is Ok && final(vm)@ == after,
            Err(e) => r == Err::<(), VastatrixError>(e),
        },
{
    proof {
        use_type_invariant(&*vm);
    }
    let this = ref_argument_of(args, 0)?;
    let from = ref_argument_of(args, 1)?;
    if !args[1].is(MethodType::ArrayReference) {
        return Err(VastatrixError::TypeMismatch);
    }
    let elements = {
        let array = vm.get_array(from as usize)?;
        clone_slots(&array.1)
    };
    let array = vm.create_array(elements, MethodType::Char)?;
    vm.put_field(this, "value".to_owned(), array_ref_of(array))
}

/// Makes a string of the text `text` and gives the reference to it.
#[verifier::rlimit(50)]
pub fn new_string(vm: &mut Vastatrix, text: &str) -> (r: Result<Argument, VastatrixError>)
    ensures
        match make_string(old(vm)@, text@) {
            Ok((after, slot)) => r matches Ok(out) && out@ == slot && final(vm)@ == after,
            Err(e) => r matches Err(x) && x == e,
        },
{
    proof {
        use_type_invariant(&*vm);
    }
    let class = vm.load_or_get_class_handle("java/lang/String".to_owned())?;
    let instance = vm.prepare_instance(class)?;
    let array = vm.create_array(char_slots_of(text), MethodType::Char)?;
    let mut args: Vec<Argument> = Vec::new();
    args.push(instance_ref_of(instance, "java/lang/String"));
    args.push(array_ref_of(array));
    assert(args.deep_view() == seq![
        instance_ref(instance, string_class()),
        array_ref(array),
    ]);
    run_string_init_chars(vm, &args)?;
    Ok(instance_ref_of(instance, "java/lang/String"))
}

/// Runs `equals` of strings.
fn run_string_equals(vm: &Vastatrix, args: &Vec<Argument>) -> (r: Result<Argument, VastatrixError>)
    ensures
        match string_equals(vm@, args.deep_view()) {
            Ok(slot) => r matches Ok(out) && out@ == slot,
            Err(e) => r matches Err(x) && x == e,
        },
{
    let this = ref_argument_of(args, 0)?;
    let other = ref_argument_of(args, 1)?;
    let a = string_slots_of(vm, this)?;
    let b = string_slots_of(vm, other)?;
    let same: u32 = if same_slots(&a, &b) {
        1
    } else {
        0
    };
    Ok(Argument::new(same, MethodType::Boolean))
}

/// Runs `forName`.
fn run_class_for_name(vm: &mut Vastatrix, args: &Vec<Argument>) -> (r: Result<
    Argument,
    VastatrixError,
>)
    ensures
        match class_for_name(old(vm)@, args.deep_view()) {
            Ok((after, slot)) => r matches Ok(out) && out@ == slot && final(vm)@ == after,
            Err(e) => r matches Err(x) && x == e,
        },
{
    proof {
        use_type_invariant(&*vm);
    }
    if args.len() < 1 {
        return Err(VastatrixError::MissingArgument);
    }
    assert(args.deep_view()[0] == args[0]@);
    let class = vm.load_or_get_class_handle("java/lang/Class".to_owned())?;
    let instance = vm.prepare_instance(class)?;
    vm.put_field(instance, "classpath".to_owned(), args[0].clone())?;
    Ok(instance_ref_of(instance, "java/lang/Class"))
}

/// Where reading the `classpath` fails for the first `n` of `elements`, it
/// fails alike for all of them.
proof fn lemma_last_classpath_fails(vm: VmModel, elements: Seq<Slot>, default: Slot, n: int)
    requires
        0 <= n <= elements.len(),
        last_classpath(vm, elements.take(n), default) is Err,
    ensures
        last_classpath(vm, elements, default) == last_classpath(vm, elements.take(n), default),
    decreases elements.len() - n,
{
    if n < elements.len() {
        assert(elements.take(n + 1).drop_last() == elements.take(n));
        lemma_last_classpath_fails(vm, elements, default, n + 1);
    } else {
        assert(elements.take(n) == elements);
    }
}

/// The slot of the field `classpath` of the last of the instances that
/// `elements` refer to.
#[verifier::loop_isolation(false)]
fn last_classpath_of(vm: &Vastatrix, elements: &Vec<Argument>, default: Argument) -> (r: Result<
    Argument,
    VastatrixError,
>)
    ensures
        match last_classpath(vm@, elements.deep_view(), default@) {
            Ok(slot) => r matches Ok(out) && out@ == slot,
            Err(e) => r matches Err(x) && x == e,
        },
{
    let ghost all = elements.deep_view();
    let ghost first = default@;
    let mut found = default;
    let mut i: usize = 0;
    assert(all.take(0) == Seq::<Slot>::empty());
    while i < elements.len()
        invariant
            i <= elements.len(),
            last_classpath(vm@, all.take(i as int), first) == Ok::<Slot, VastatrixError>(found@),
        decreases elements.len() - i,
    {
        assert(all.take(i + 1).drop_last() == all.take(i as int));
        assert(all.take(i + 1).last() == elements[i as int]@);
        proof {
            if last_classpath(vm@, all.take(i + 1), first) is Err {
                lemma_last_classpath_fails(vm@, all, first, i + 1);
            }
        }
        if !elements[i].is_ref() {
            return Err(VastatrixError::TypeMismatch);
        }
        found = vm.get_field(elements[i].reference(), "classpath")?;
        i = i + 1;
    }
    assert(all.take(all.len() as int) == all);
    Ok(found)
}

/// Writes the three fields of an instance of `java/lang/reflect/Method`.
fn run_store_method(
    vm: &mut Vastatrix,
    instance: u32,
    owner: Argument,
    name: Argument,
    described: Argument,
) -> (r: Result<Argument, VastatrixError>)
    ensures
        match store_method(old(vm)@, instance, owner@, name@, described@) {
            Ok((after, slot)) => r matches Ok(out) && out@ == slot && final(vm)@ == after,
            Err(e) => r matches Err(x) && x == e,
        },
{
    vm.put_field(instance, "classpath".to_owned(), owner)?;
    vm.put_field(instance, "methodname".to_owned(), name)?;
    vm.put_field(instance, "methoddesc".to_owned(), described)?;
    Ok(instance_ref_of(instance, "java/lang/reflect/Method"))
}

/// Runs `getMethod`.
fn run_class_get_method(vm: &mut Vastatrix, args: &Vec<Argument>) -> (r: Result<
    Argument,
    VastatrixError,
>)
    ensures
        match class_get_method(old(vm)@, args.deep_view()) {
            Ok((after, slot)) => r matches Ok(out) && out@ == slot && final(vm)@ == after,
            Err(e) => r matches Err(x) && x == e,
        },
{
    let this = ref_argument_of(args, 0)?;
    let owner = vm.get_field(this, "classpath")?;
    let types = ref_argument_of(args, 2)?;
    assert(args.deep_view()[1] == args[1]@);
    let described = {
        let array = vm.get_array(types as usize)?;
        last_classpath_of(vm, &array.1, instance_ref_of(0, "java/lang/String"))?
    };
    let class = vm.load_or_get_class_handle("java/lang/reflect/Method".to_owned())?;
    let instance = vm.prepare_instance(class)?;
    run_store_method(vm, instance, owner, args[1].clone(), described)
}

/// The text whose characters have the payloads of `slots` as their codes.
fn text_of_slots(slots: &Vec<Argument>) -> (r: Option<Vec<char>>)
    ensures
        match text_of(slots.deep_view()) {
            Some(text) => r matches Some(out) && out@ == text,
            None => r is None,
        },
{
    let ghost all = slots.deep_view();
    let mut out: Vec<char> = Vec::new();
    let mut i: usize = 0;
    while i < slots.len()
        invariant
            i <= slots.len(),
            all == slots.deep_view(),
            out.len() == i,
            forall|k: int|
                0 <= k < i ==> is_scalar_value((#[trigger] all[k]).value) && out[k]
                    == all[k].value as char,
        decreases slots.len() - i,
    {
        assert(all[i as int] == slots[i as int]@);
        let v = slots[i].value();
        if v < 0 || v > 0x10FFFF {
            return None;
        }
        match char::from_u32(v as u32) {
            Some(c) => {
                out.push(c);
            },
            None => {
                return None;
            },
        }
        i = i + 1;
    }
    assert(out@ =~= Seq::new(all.len(), |i: int| all[i].value as char));
    Some(out)
}

/// The text of the string that the field `name` of the instance behind
/// `handle` refers to.
fn text_field_of(vm: &Vastatrix, handle: u32, name: &str) -> (r: Result<Vec<char>, VastatrixError>)
    ensures
        match text_field(vm@, handle, name@) {
            Ok(text) => r matches Ok(out) && out@ == text,
            Err(e) => r matches Err(x) && x == e,
        },
{
    let slot = vm.get_field(handle, name)?;
    if !slot.is_ref() {
        return Err(VastatrixError::TypeMismatch);
    }
    let slots = string_slots_of(vm, slot.reference())?;
    match text_of_slots(&slots) {
        Some(text) => Ok(text),
        None => Err(VastatrixError::TypeMismatch),
    }
}

/// The text `text` with `/` in the place of each `.`.
pub fn with_slashes_of(text: &Vec<char>) -> (r: Vec<char>)
    ensures
        r@ == with_slashes(text@),
{
    let mut out: Vec<char> = Vec::new();
    let mut i: usize = 0;
    while i < text.len()
        invariant
            i <= text.len(),
            out.len() == i,
            forall|k: int|
                0 <= k < i ==> #[trigger] out[k] == (if text[k] == '.' {
                    '/'
                } else {
                    text[k]
                }),
        decreases text.len() - i,
    {
        let c = text[i];
        if c == '.' {
            out.push('/');
        } else {
            out.push(c);
        }
        i = i + 1;
    }
    assert(out@ =~= with_slashes(text@));
    out
}

/// The text `text` between `(` and `)V`.
fn as_void_descriptor(text: &Vec<char>) -> (r: Vec<char>)
    ensures
        r@ == seq!['('] + text@ + seq![')', 'V'],
{
    let mut out: Vec<char> = Vec::new();
    out.push('(');
    let mut j: usize = 0;
    assert(text@.take(0) == Seq::<char>::empty());
    while j < text.len()
        invariant
            j <= text.len(),
            out@ == seq!['('] + text@.take(j as int),
        decreases text.len() - j,
    {
        out.push(text[j]);
        assert(text@.take(j + 1) == text@.take(j as int).push(text@[j as int]));
        j = j + 1;
    }
    assert(text@.take(text@.len() as int) == text@);
    out.push(')');
    out.push('V');
    assert(out@ == seq!['('] + text@ + seq![')', 'V']);
    out
}

/// Runs `invoke`.
fn run_method_invoke(vm: &mut Vastatrix, args: &Vec<Argument>) -> (r: Result<
    BytecodeFrame,
    VastatrixError,
>)
    ensures
        match method_invoke(old(vm)@, args.deep_view()) {
            Ok((after, frame)) => r matches Ok(out) && out@ == frame && final(vm)@ == after,
            Err(e) => r matches Err(x) && x == e,
        },
{
    let this = ref_argument_of(args, 0)?;
    let classpath = text_field_of(vm, this, "classpath")?;
    let name = text_field_of(vm, this, "methodname")?;
    let described = text_field_of(vm, this, "methoddesc")?;
    let slashed = with_slashes_of(&classpath);
    let descriptor = as_void_descriptor(&described);
    proof {
        use_type_invariant(&*vm);
        lemma_load_valid(vm@, slashed@);
    }
    let class = vm.load_or_get_class_handle(string_of(&slashed))?;
    let found = vm.get_class(class)?;
    match found.create_frame(
        string_of(&name),
        string_of(&descriptor),
    ) {
        Some(frame) => Ok(frame),
        None => Err(VastatrixError::NoSuchMethod),
    }
}

/// The views of the pieces `pieces`.
pub open spec fn piece_views(pieces: Seq<Vec<Argument>>) -> Seq<Seq<Slot>> {
    Seq::new(pieces.len(), |i: int| pieces[i].deep_view())
}

/// A copy of the slots of `text` from the index `from` up to `to`.
fn copy_range(text: &Vec<Argument>, from: usize, to: usize) -> (r: Vec<Argument>)
    requires
        from <= to <= text.len(),
    ensures
        r.deep_view() == text.deep_view().subrange(from as int, to as int),
{
    let mut out: Vec<Argument> = Vec::new();
    let mut i: usize = from;
    while i < to
        invariant
            from <= i <= to,
            to <= text.len(),
            out.len() == i - from,
            forall|k: int| 0 <= k < i - from ==> (#[trigger] out[k])@ == text[from + k]@,
        decreases to - i,
    {
        out.push(text[i].clone());
        i = i + 1;
    }
    assert(out.deep_view() =~= text.deep_view().subrange(from as int, to as int));
    out
}

/// Whether `delimiter` stands in `text` at the index `at`.
fn matches_at(text: &Vec<Argument>, delimiter: &Vec<Argument>, at: usize) -> (r: bool)
    requires
        at + delimiter.len() <= text.len(),
    ensures
        r == (text.deep_view().subrange(at as int, at + delimiter.len()) == delimiter.deep_view()),
{
    let ghost window = text.deep_view().subrange(at as int, at + delimiter.len());
    let mut k: usize = 0;
    while k < delimiter.len()
        invariant
            k <= delimiter.len(),
            at + delimiter.len() <= text.len(),
            window == text.deep_view().subrange(at as int, at + delimiter.len()),
            forall|j: int| 0 <= j < k ==> (#[trigger] text[at + j])@ == delimiter[j]@,
        decreases delimiter.len() - k,
    {
        if !(text[at + k] == delimiter[k]) {
            assert(window[k as int] == text[at + k]@);
            assert(delimiter.deep_view()[k as int] == delimiter[k as int]@);
            return false;
        }
        k = k + 1;
    }
    assert(window =~= delimiter.deep_view()) by {
        assert forall|j: int| 0 <= j < delimiter.len() implies window[j]
            == delimiter.deep_view()[j] by {
            assert(window[j] == text[at + j]@);
        }
    }
    true
}

/// The pieces that `text` falls into when it is cut at each occurrence of
/// `delimiter`.
fn split_slots(text: &Vec<Argument>, delimiter: &Vec<Argument>) -> (r: Vec<Vec<Argument>>)
    ensures
        piece_views(r@) == split_from(text.deep_view(), delimiter.deep_view(), 0, 0),
{
    let ghost t = text.deep_view();
    let ghost d = delimiter.deep_view();
    let mut out: Vec<Vec<Argument>> = Vec::new();
    let mut start: usize = 0;
    let mut i: usize = 0;
    assert(piece_views(out@) + split_from(t, d, 0, 0) == split_from(t, d, 0, 0));
    while delimiter.len() > 0 && delimiter.len() <= text.len() - i
        invariant
            start <= i <= text.len(),
            t == text.deep_view(),
            d == delimiter.deep_view(),
            split_from(t, d, 0, 0) == piece_views(out@) + split_from(t, d, start as int, i as int),
        decreases text.len() - i,
    {
        if matches_at(text, delimiter, i) {
            let ghost before = piece_views(out@);
            let piece = copy_range(text, start, i);
            let ghost model = piece.deep_view();
            out.push(piece);
            assert(piece_views(out@) == before.push(model));
            i = i + delimiter.len();
            start = i;
            assert(before + (seq![model] + split_from(t, d, i as int, i as int)) == piece_views(
                out@,
            ) + split_from(t, d, i as int, i as int));
        } else {
            i = i + 1;
        }
    }
    let ghost before = piece_views(out@);
    let last = copy_range(text, start, text.len());
    let ghost model = last.deep_view();
    out.push(last);
    assert(piece_views(out@) == before.push(model));
    assert(before + seq![model] == before.push(model));
    out
}

/// Makes a string whose characters are the slots `slots`.
fn run_store_string(vm: &mut Vastatrix, slots: Vec<Argument>) -> (r: Result<
    Argument,
    VastatrixError,
>)
    ensures
        match store_string(old(vm)@, slots.deep_view()) {
            Ok((after, slot)) => r matches Ok(out) && out@ == slot && final(vm)@ == after,
            Err(e) => r matches Err(x) && x == e,
        },
{
    let array = vm.create_array(slots, MethodType::Char)?;
    let class = vm.load_or_get_class_handle("java/lang/String".to_owned())?;
    let instance = vm.prepare_instance(class)?;
    vm.put_field(instance, "value".to_owned(), array_ref_of(array))?;
    Ok(instance_ref_of(instance, "java/lang/String"))
}

/// Where making the strings fails for the first `n` of `pieces`, it fails
/// alike for all of them.
proof fn lemma_store_strings_fails(vm: VmModel, pieces: Seq<Seq<Slot>>, n: int)
    requires
        0 <= n <= pieces.len(),
        store_strings(vm, pieces.take(n)) is Err,
    ensures
        store_strings(vm, pieces) == store_strings(vm, pieces.take(n)),
    decreases pieces.len() - n,
{
    if n < pieces.len() {
        assert(pieces.take(n + 1).drop_last() == pieces.take(n));
        lemma_store_strings_fails(vm, pieces, n + 1);
    } else {
        assert(pieces.take(n) == pieces);
    }
}

/// Makes a string of each of `pieces`, first to last.
#[verifier::loop_isolation(false)]
#[verifier::rlimit(50)]
fn run_store_strings(vm: &mut Vastatrix, pieces: Vec<Vec<Argument>>) -> (r: Result<
    Vec<Argument>,
    VastatrixError,
>)
    ensures
        match store_strings(old(vm)@, piece_views(pieces@)) {
            Ok((after, refs)) => r matches Ok(out) && out.deep_view() == refs && final(vm)@
                == after,
            Err(e) => r matches Err(x) && x == e,
        },
{
    let ghost all = piece_views(pieces@);
    let ghost vm0 = vm@;
    let mut refs: Vec<Argument> = Vec::new();
    let mut i: usize = 0;
    assert(all.take(0) == Seq::<Seq<Slot>>::empty());
    assert(refs.deep_view() == Seq::<Slot>::empty());
    while i < pieces.len()
        invariant
            i <= pieces.len(),
            store_strings(vm0, all.take(i as int)) == Ok::<(VmModel, Seq<Slot>), VastatrixError>(
                (vm@, refs.deep_view()),
            ),
        decreases pieces.len() - i,
    {
        assert(all.take(i + 1).drop_last() == all.take(i as int));
        assert(all.take(i + 1).last() == pieces[i as int].deep_view());
        proof {
            if store_strings(vm0, all.take(i + 1)) is Err {
                lemma_store_strings_fails(vm0, all, i + 1);
            }
        }
        let ghost before = refs.deep_view();
        let piece = clone_slots(&pieces[i]);
        let made = run_store_string(vm, piece)?;
        let ghost model = made@;
        refs.push(made);
        assert(refs.deep_view() == before.push(model));
        i = i + 1;
    }
    assert(all.take(all.len() as int) == all);
    Ok(refs)
}

/// Runs `split`.
fn run_string_split(vm: &mut Vastatrix, args: &Vec<Argument>) -> (r: Result<
    Argument,
    VastatrixError,
>)
    ensures
        match string_split(old(vm)@, args.deep_view()) {
            Ok((after, slot)) => r matches Ok(out) && out@ == slot && final(vm)@ == after,
            Err(e) => r matches Err(x) && x == e,
        },
{
    let this = ref_argument_of(args, 0)?;
    let other = ref_argument_of(args, 1)?;
    let text = string_slots_of(vm, this)?;
    let delimiter = string_slots_of(vm, other)?;
    let pieces = split_slots(&text, &delimiter);
    let refs = run_store_strings(vm, pieces)?;
    let array = vm.create_array(
        refs,
        MethodType::ClassReference { classpath: "java/lang/String".to_owned() },
    )?;
    Ok(array_ref_of(array))
}

/// The integer of 32 bits that the text `s` stands for.
#[verifier::loop_isolation(false)]
pub fn parse_int(s: &Vec<char>) -> (r: Option<i32>)
    ensures
        match parsed_int(s@) {
            Some(v) => r == Some(v as i32),
            None => r is None,
        },
{
    let negative = s.len() > 0 && s[0] == '-';
    let start: usize = if s.len() > 0 && (s[0] == '-' || s[0] == '+') {
        1
    } else {
        0
    };
    let ghost digits = s@.skip(start as int);
    assert(s@.skip(0) == s@);
    if start >= s.len() {
        return None;
    }
    let mut acc: i64 = 0;
    let mut i: usize = start;
    while i < s.len()
        invariant
            start <= i <= s.len(),
            0 <= acc <= 0x8000_0000,
            i == start ==> acc == 0,
            i > start ==> decimal(digits.take(i - start)) == Some(acc as int),
        decreases s.len() - i,
    {
        let c = s[i];
        assert(digits[i - start] == c);
        if !('0' <= c && c <= '9') {
            proof {
                lemma_decimal_needs_digits(digits, i - start);
            }
            return None;
        }
        let d = (c as u32 - '0' as u32) as i64;
        assert(digits.take(i - start + 1).drop_last() == digits.take(i - start));
        assert(digits.take(i - start + 1).last() == c);
        acc = acc * 10 + d;
        i = i + 1;
        if acc > 0x8000_0000 {
            proof {
                if decimal(digits) is Some {
                    lemma_decimal_grows(digits, i - start);
                }
            }
            return None;
        }
    }
    assert(digits.take(digits.len() as int) == digits);
    let value = if negative {
        -acc
    } else {
        acc
    };
    if -0x8000_0000 <= value && value <= 0x7fff_ffff {
        Some(value as i32)
    } else {
        None
    }
}

/// Runs `parseInt`.
fn run_integer_parse_int(vm: &Vastatrix, args: &Vec<Argument>) -> (r: Result<
    Argument,
    VastatrixError,
>)
    ensures
        match integer_parse_int(vm@, args.deep_view()) {
            Ok(slot) => r matches Ok(out) && out@ == slot,
            Err(e) => r matches Err(x) && x == e,
        },
{
    let this = ref_argument_of(args, 0)?;
    let slots = string_slots_of(vm, this)?;
    match text_of_slots(&slots) {
        None => Err(VastatrixError::TypeMismatch),
        Some(text) => match parse_int(&text) {
            Some(v) => Ok(Argument::new(v, MethodType::Int)),
            None => Err(VastatrixError::NumberFormat),
        },
    }
}

/// Runs the method `method` of the host with the arguments `args`.
pub fn call_native(vm: &mut Vastatrix, method: NativeMethod, args: &Vec<Argument>) -> (r: Result<
    NativeOutcome,
    VastatrixError,
>)
    ensures
        match native(old(vm)@, method, args.deep_view()) {
            Ok((after, result)) => r matches Ok(out) && out@ == result && final(vm)@ == after,
            Err(e) => r matches Err(x) && x == e,
        },
{
    proof {
        use_type_invariant(&*vm);
    }
    match method {
        NativeMethod::Init => {
            Ok(NativeOutcome::Return(Argument::new(0, MethodType::Void)))
        },
        NativeMethod::StringInit => {
            run_string_init(vm, args)?;
            Ok(NativeOutcome::Return(Argument::new(0, MethodType::Void)))
        },
        NativeMethod::StringInitChars => {
            run_string_init_chars(vm, args)?;
            Ok(NativeOutcome::Return(Argument::new(0, MethodType::Void)))
        },
        NativeMethod::StringSplit => {
            let slot = run_string_split(vm, args)?;
            Ok(NativeOutcome::Return(slot))
        },
        NativeMethod::StringEquals => {
            let slot = run_string_equals(vm, args)?;
            Ok(NativeOutcome::Return(slot))
        },
        NativeMethod::SystemGetProperty => {
            let slot = new_string(vm, "17")?;
            Ok(NativeOutcome::Return(slot))
        },
        NativeMethod::IntegerParseInt => {
            let slot = run_integer_parse_int(vm, args)?;
            Ok(NativeOutcome::Return(slot))
        },
        NativeMethod::ClassForName => {
            let slot = run_class_for_name(vm, args)?;
            Ok(NativeOutcome::Return(slot))
        },
        NativeMethod::ClassGetMethod => {
            let slot = run_class_get_method(vm, args)?;
            Ok(NativeOutcome::Return(slot))
        },
        NativeMethod::MethodInvoke => {
            let frame = run_method_invoke(vm, args)?;
            Ok(NativeOutcome::Call(frame))
        },
    }
}

/// What `lemma_steps_extend` says of making an array and of writing a field,
/// in one call.
proof fn lemma_object_steps(
    vm: VmModel,
    elements: Seq<Slot>,
    of: Kind,
    handle: u32,
    name: Seq<char>,
    value: Slot,
)
    requires
        vm.wf(),
    ensures
        vm.create_array(elements, of) matches Ok((after, _)) ==> after.wf() && after.extends(vm),
        vm.put_field(handle, name, value) matches Ok(after) ==> after.wf() && after.extends(vm),
        forall|class: u32|
            (#[trigger] vm.prepare_instance(class)) matches Ok((after, _)) ==> after.wf()
                && after.extends(vm),
{
    lemma_steps_extend(vm, name, 0, elements, of, handle, 0, value);
    assert forall|class: u32|
        (#[trigger] vm.prepare_instance(class)) matches Ok((after, _)) ==> after.wf()
            && after.extends(vm) by {
        lemma_steps_extend(vm, name, class, elements, of, handle, 0, value);
    }
}

/// The constructors of strings give a heap in order that extends the one
/// before.
pub proof fn lemma_string_init_extends(vm: VmModel, args: Seq<Slot>)
    requires
        vm.wf(),
    ensures
        string_init(vm, args) matches Ok(after) ==> after.wf() && after.extends(vm),
        string_init_chars(vm, args) matches Ok(after) ==> after.wf() && after.extends(vm),
{
    if ref_argument(args, 0) is Ok {
        let this = ref_argument(args, 0)->Ok_0;
        lemma_object_steps(vm, Seq::<Slot>::empty(), Kind::Char, 0, "value"@, Slot::void());
        match vm.create_array(Seq::<Slot>::empty(), Kind::Char) {
            Ok((next, array)) => {
                lemma_object_steps(
                    next,
                    Seq::<Slot>::empty(),
                    Kind::Char,
                    this,
                    "value"@,
                    array_ref(array),
                );
            },
            Err(_) => {},
        }
        if ref_argument(args, 1) is Ok {
            let from = ref_argument(args, 1)->Ok_0;
            match vm.array(from as int) {
                Ok((_, elements)) => {
                    lemma_object_steps(vm, elements, Kind::Char, 0, "value"@, Slot::void());
                    match vm.create_array(elements, Kind::Char) {
                        Ok((next, array)) => {
                            lemma_object_steps(
                                next,
                                elements,
                                Kind::Char,
                                this,
                                "value"@,
                                array_ref(array),
                            );
                        },
                        Err(_) => {},
                    }
                },
                Err(_) => {},
            }
        }
    }
}

/// Making a string gives a heap in order that extends the one before.
pub proof fn lemma_make_string_extends(vm: VmModel, text: Seq<char>)
    requires
        vm.wf(),
    ensures
        make_string(vm, text) matches Ok((after, _)) ==> after.wf() && after.extends(vm),
{
    lemma_load_valid(vm, string_class());
    match vm.load(string_class()) {
        Ok((vm1, class)) => {
            lemma_object_steps(vm1, char_slots(text), Kind::Char, 0, "value"@, Slot::void());
            match vm1.prepare_instance(class) {
                Ok((vm2, instance)) => {
                    lemma_object_steps(
                        vm2,
                        char_slots(text),
                        Kind::Char,
                        0,
                        "value"@,
                        Slot::void(),
                    );
                    match vm2.create_array(char_slots(text), Kind::Char) {
                        Ok((vm3, array)) => {
                            lemma_string_init_extends(
                                vm3,
                                seq![instance_ref(instance, string_class()), array_ref(array)],
                            );
                        },
                        Err(_) => {},
                    }
                },
                Err(_) => {},
            }
        },
        Err(_) => {},
    }
}

/// Making a string of slots gives a heap in order that extends the one
/// before.
pub proof fn lemma_store_string_extends(vm: VmModel, slots: Seq<Slot>)
    requires
        vm.wf(),
    ensures
        store_string(vm, slots) matches Ok((after, _)) ==> after.wf() && after.extends(vm),
{
    lemma_object_steps(vm, slots, Kind::Char, 0, "value"@, Slot::void());
    match vm.create_array(slots, Kind::Char) {
        Ok((vm1, array)) => {
            lemma_load_valid(vm1, string_class());
            match vm1.load(string_class()) {
                Ok((vm2, class)) => {
                    lemma_object_steps(vm2, slots, Kind::Char, 0, "value"@, Slot::void());
                    match vm2.prepare_instance(class) {
                        Ok((vm3, instance)) => {
                            lemma_object_steps(
                                vm3,
                                slots,
                                Kind::Char,
                                instance,
                                "value"@,
                                array_ref(array),
                            );
                        },
                        Err(_) => {},
                    }
                },
                Err(_) => {},
            }
        },
        Err(_) => {},
    }
}

/// Making strings of pieces gives a heap in order that extends the one
/// before.
pub proof fn lemma_store_strings_extends(vm: VmModel, pieces: Seq<Seq<Slot>>)
    requires
        vm.wf(),
    ensures
        store_strings(vm, pieces) matches Ok((after, _)) ==> after.wf() && after.extends(vm),
    decreases pieces.len(),
{
    if pieces.len() > 0 {
        lemma_store_strings_extends(vm, pieces.drop_last());
        match store_strings(vm, pieces.drop_last()) {
            Ok((next, _)) => {
                lemma_store_string_extends(next, pieces.last());
            },
            Err(_) => {},
        }
    }
}

/// No method of the host takes a handle away: each gives a heap in order
/// that extends the one before.
pub proof fn lemma_native_extends(vm: VmModel, method: NativeMethod, args: Seq<Slot>)
    requires
        vm.wf(),
    ensures
        native(vm, method, args) matches Ok((after, _)) ==> after.wf() && after.extends(vm),
{
    match method {
        NativeMethod::Init => {},
        NativeMethod::StringInit => {
            lemma_string_init_extends(vm, args);
        },
        NativeMethod::StringInitChars => {
            lemma_string_init_extends(vm, args);
        },
        NativeMethod::StringSplit => {
            if string_split(vm, args) is Ok {
                let text = string_slots(vm, ref_argument(args, 0)->Ok_0)->Ok_0;
                let delimiter = string_slots(vm, ref_argument(args, 1)->Ok_0)->Ok_0;
                let pieces = split_from(text, delimiter, 0, 0);
                lemma_store_strings_extends(vm, pieces);
                let (next, refs) = store_strings(vm, pieces)->Ok_0;
                lemma_object_steps(
                    next,
                    refs,
                    Kind::ClassReference { classpath: string_class() },
                    0,
                    "value"@,
                    Slot::void(),
                );
            }
        },
        NativeMethod::StringEquals => {},
        NativeMethod::SystemGetProperty => {
            lemma_make_string_extends(vm, property_text());
        },
        NativeMethod::IntegerParseInt => {},
        NativeMethod::ClassForName => {
            if class_for_name(vm, args) is Ok {
                lemma_load_valid(vm, "java/lang/Class"@);
                let (vm1, class) = vm.load("java/lang/Class"@)->Ok_0;
                lemma_object_steps(vm1, args, Kind::Char, 0, "classpath"@, args[0]);
                let (vm2, instance) = vm1.prepare_instance(class)->Ok_0;
                lemma_object_steps(vm2, args, Kind::Char, instance, "classpath"@, args[0]);
            }
        },
        NativeMethod::ClassGetMethod => {
            if class_get_method(vm, args) is Ok {
                let this = ref_argument(args, 0)->Ok_0;
                let owner = vm.get_field(this, "classpath"@)->Ok_0;
                let types = ref_argument(args, 2)->Ok_0;
                let elements = vm.array(types as int)->Ok_0.1;
                let described = last_classpath(
                    vm,
                    elements,
                    instance_ref(0, string_class()),
                )->Ok_0;
                lemma_load_valid(vm, method_class());
                let (vm1, class) = vm.load(method_class())->Ok_0;
                lemma_object_steps(vm1, args, Kind::Char, 0, "classpath"@, owner);
                let (vm2, instance) = vm1.prepare_instance(class)->Ok_0;
                lemma_object_steps(vm2, args, Kind::Char, instance, "classpath"@, owner);
                let vm3 = vm2.put_field(instance, "classpath"@, owner)->Ok_0;
                lemma_object_steps(vm3, args, Kind::Char, instance, "methodname"@, args[1]);
                let vm4 = vm3.put_field(instance, "methodname"@, args[1])->Ok_0;
                lemma_object_steps(vm4, args, Kind::Char, instance, "methoddesc"@, described);
            }
        },
        NativeMethod::MethodInvoke => {
            if method_invoke(vm, args) is Ok {
                let this = ref_argument(args, 0)->Ok_0;
                let classpath = text_field(vm, this, "classpath"@)->Ok_0;
                lemma_load_valid(vm, with_slashes(classpath));
            }
        },
    }
}

} // verus!
