//! Field and method descriptors: the text that encodes a type signature.
//!
//! A field type is one of the letters `B C D F I J S Z`, a class name between
//! `L` and `;`, or `[` in front of a field type. A method descriptor is `(`,
//! any number of field types, `)`, and a field type or `V`.

use crate::buffer::chars_of;
use vstd::prelude::*;

verus! {

/// The type that a field descriptor stands for.
#[derive(Debug)]
pub enum FieldDescriptor {
    Byte,
    Char,
    Double,
    Float,
    Int,
    Long,
    ClassReference(String),
    Short,
    Boolean,
    ArrayReference(Box<FieldDescriptor>),
}

/// The mathematical value of a [`FieldDescriptor`].
pub enum FieldType {
    Byte,
    Char,
    Double,
    Float,
    Int,
    Long,
    ClassReference(Seq<char>),
    Short,
    Boolean,
    ArrayReference(Box<FieldType>),
}

impl FieldDescriptor {
    /// The mathematical value of this descriptor.
    pub open spec fn model(&self) -> FieldType
        decreases self,
    {
        match self {
            FieldDescriptor::Byte => FieldType::Byte,
            FieldDescriptor::Char => FieldType::Char,
            FieldDescriptor::Double => FieldType::Double,
            FieldDescriptor::Float => FieldType::Float,
            FieldDescriptor::Int => FieldType::Int,
            FieldDescriptor::Long => FieldType::Long,
            FieldDescriptor::ClassReference(name) => FieldType::ClassReference(name@),
            FieldDescriptor::Short => FieldType::Short,
            FieldDescriptor::Boolean => FieldType::Boolean,
            FieldDescriptor::ArrayReference(of) => FieldType::ArrayReference(Box::new(of.model())),
        }
    }
}

impl View for FieldDescriptor {
    type V = FieldType;

    open spec fn view(&self) -> FieldType {
        self.model()
    }
}

impl DeepView for FieldDescriptor {
    type V = FieldType;

    open spec fn deep_view(&self) -> FieldType {
        self@
    }
}

/// The parameter types and the return type of a method; `returns` is `None`
/// for a method that returns nothing.
#[derive(Debug)]
pub struct MethodDescriptor {
    pub parameters: Vec<FieldDescriptor>,
    pub returns: Option<FieldDescriptor>,
}

/// The mathematical value of a [`MethodDescriptor`].
pub struct MethodSignature {
    pub parameters: Seq<FieldType>,
    pub returns: Option<FieldType>,
}

impl View for MethodDescriptor {
    type V = MethodSignature;

    open spec fn view(&self) -> MethodSignature {
        MethodSignature {
            parameters: self.parameters.deep_view(),
            returns: match self.returns {
                Some(t) => Some(t@),
                None => None,
            },
        }
    }
}

/// The index of the first `;` of `s` at or after `i`, or the length of `s`
/// where there is none.
pub open spec fn semicolon_from(s: Seq<char>, i: int) -> int
    decreases s.len() - i,
{
    if i < 0 || i >= s.len() {
        s.len() as int
    } else if s[i] == ';' {
        i
    } else {
        semicolon_from(s, i + 1)
    }
}

/// The field type that the text `s` holds at index `i`, with the index just
/// behind it; `None` where no field type starts there.
pub open spec fn field_type_at(s: Seq<char>, i: int) -> Option<(FieldType, int)>
    decreases s.len() - i,
{
    if i < 0 || i >= s.len() {
        None
    } else if s[i] == 'B' {
        Some((FieldType::Byte, i + 1))
    } else if s[i] == 'C' {
        Some((FieldType::Char, i + 1))
    } else if s[i] == 'D' {
        Some((FieldType::Double, i + 1))
    } else if s[i] == 'F' {
        Some((FieldType::Float, i + 1))
    } else if s[i] == 'I' {
        Some((FieldType::Int, i + 1))
    } else if s[i] == 'J' {
        Some((FieldType::Long, i + 1))
    } else if s[i] == 'S' {
        Some((FieldType::Short, i + 1))
    } else if s[i] == 'Z' {
        Some((FieldType::Boolean, i + 1))
    } else if s[i] == 'L' {
        let j = semicolon_from(s, i + 1);
        if j < s.len() {
            Some((FieldType::ClassReference(s.subrange(i + 1, j)), j + 1))
        } else {
            None
        }
    } else if s[i] == '[' {
        match field_type_at(s, i + 1) {
            Some((of, j)) => Some((FieldType::ArrayReference(Box::new(of)), j)),
            None => None,
        }
    } else {
        None
    }
}

/// The field types that `s` holds from index `i` up to the closing `)`, with
/// the index just behind that `)`.
pub open spec fn parameters_at(s: Seq<char>, i: int) -> Option<(Seq<FieldType>, int)>
    decreases s.len() - i,
{
    if i < 0 || i >= s.len() {
        None
    } else if s[i] == ')' {
        Some((Seq::<FieldType>::empty(), i + 1))
    } else {
        match field_type_at(s, i) {
            Some((t, j)) => if i < j <= s.len() {
                match parameters_at(s, j) {
                    Some((rest, end)) => Some((seq![t] + rest, end)),
                    None => None,
                }
            } else {
                None
            },
            None => None,
        }
    }
}

/// The method signature that `s` holds at index `i`, with the index just
/// behind it.
pub open spec fn method_signature_at(s: Seq<char>, i: int) -> Option<(MethodSignature, int)> {
    if i < 0 || i >= s.len() || s[i] != '(' {
        None
    } else {
        match parameters_at(s, i + 1) {
            Some((parameters, j)) => if 0 <= j < s.len() && s[j] == 'V' {
                Some((MethodSignature { parameters, returns: None }, j + 1))
            } else {
                match field_type_at(s, j) {
                    Some((t, end)) => Some((MethodSignature { parameters, returns: Some(t) }, end)),
                    None => None,
                }
            },
            None => None,
        }
    }
}

/// A field type ends behind where it starts, and inside the text.
pub proof fn lemma_field_type_advances(s: Seq<char>, i: int)
    ensures
        field_type_at(s, i) matches Some((_, j)) ==> i < j <= s.len(),
    decreases s.len() - i,
{
    if 0 <= i < s.len() {
        if s[i] == 'L' {
            lemma_semicolon_from_bounds(s, i + 1);
        } else if s[i] == '[' {
            lemma_field_type_advances(s, i + 1);
        }
    }
}

/// `semicolon_from` stays between its start and the end of the text, and no
/// `;` stands before the index it gives.
pub proof fn lemma_semicolon_from_bounds(s: Seq<char>, i: int)
    requires
        0 <= i <= s.len(),
    ensures
        i <= semicolon_from(s, i) <= s.len(),
        semicolon_from(s, i) < s.len() ==> s[semicolon_from(s, i)] == ';',
        forall|k: int| i <= k < semicolon_from(s, i) ==> s[k] != ';',
    decreases s.len() - i,
{
    if i < s.len() && s[i] != ';' {
        lemma_semicolon_from_bounds(s, i + 1);
    }
}

/// A text with a position in it, read one character at a time.
pub struct CharReader {
    chars: Vec<char>,
    pos: usize,
}

impl CharReader {
    #[verifier::type_invariant]
    spec fn inv(&self) -> bool {
        self.pos <= self.chars.len()
    }

    /// The whole text, read or not.
    pub closed spec fn text(&self) -> Seq<char> {
        self.chars@
    }

    /// The index of the next character to read.
    pub closed spec fn position(&self) -> int {
        self.pos as int
    }

    /// A reader at the start of `text`.
    pub fn new(text: &str) -> (r: Self)
        ensures
            r.text() == text@,
            r.position() == 0,
    {
        CharReader { chars: chars_of(text), pos: 0 }
    }

    /// How many characters are left to read.
    pub fn remaining(&self) -> (r: usize)
        ensures
            r == self.text().len() - self.position(),
            0 <= self.position() <= self.text().len(),
    {
        proof {
            use_type_invariant(self);
        }
        self.chars.len() - self.pos
    }

    /// The next character, without moving; `None` at the end of the text.
    pub fn peek(&self) -> (r: Option<char>)
        ensures
            r == (if self.position() < self.text().len() {
                Some(self.text()[self.position()])
            } else {
                None
            }),
    {
        proof {
            use_type_invariant(self);
        }
        if self.pos < self.chars.len() {
            Some(self.chars[self.pos])
        } else {
            None
        }
    }

    /// Moves past the next character, if there is one.
    pub fn skip(&mut self)
        ensures
            final(self).text() == old(self).text(),
            final(self).position() == (if old(self).position() < old(self).text().len() {
                old(self).position() + 1
            } else {
                old(self).position()
            }),
    {
        proof {
            use_type_invariant(&*self);
        }
        if self.pos < self.chars.len() {
            self.pos = self.pos + 1;
        }
    }
}

impl FieldDescriptor {
    /// Reads one field type at the reader's position. Where the text holds one
    /// there, the reader ends just behind it; elsewhere the result is `None` and
    /// the reader has not moved.
    pub fn read_from(reader: &mut CharReader) -> (r: Option<Self>)
        ensures
            final(reader).text() == old(reader).text(),
            match field_type_at(old(reader).text(), old(reader).position()) {
                Some((t, j)) => r matches Some(d) && d@ == t && final(reader).position() == j,
                None => r is None && final(reader).position() == old(reader).position(),
            },
        decreases old(reader).text().len() - old(reader).position(),
    {
        proof {
            use_type_invariant(&*reader);
        }
        if reader.pos >= reader.chars.len() {
            return None;
        }
        let first = reader.chars[reader.pos];
        if first == 'B' {
            reader.pos = reader.pos + 1;
            Some(FieldDescriptor::Byte)
        } else if first == 'C' {
            reader.pos = reader.pos + 1;
            Some(FieldDescriptor::Char)
        } else if first == 'D' {
            reader.pos = reader.pos + 1;
            Some(FieldDescriptor::Double)
        } else if first == 'F' {
            reader.pos = reader.pos + 1;
            Some(FieldDescriptor::Float)
        } else if first == 'I' {
            reader.pos = reader.pos + 1;
            Some(FieldDescriptor::Int)
        } else if first == 'J' {
            reader.pos = reader.pos + 1;
            Some(FieldDescriptor::Long)
        } else if first == 'S' {
            reader.pos = reader.pos + 1;
            Some(FieldDescriptor::Short)
        } else if first == 'Z' {
            reader.pos = reader.pos + 1;
            Some(FieldDescriptor::Boolean)
        } else if first == 'L' {
            Self::read_class_reference(reader)
        } else if first == '[' {
            let start = reader.pos;
            reader.pos = reader.pos + 1;
            match Self::read_from(reader) {
                Some(of) => Some(FieldDescriptor::ArrayReference(Box::new(of))),
                None => {
                    reader.pos = start;
                    None
                },
            }
        } else {
            None
        }
    }

    /// Reads a class name between the `L` at the reader's position and the
    /// next `;`.
    fn read_class_reference(reader: &mut CharReader) -> (r: Option<Self>)
        requires
            old(reader).position() < old(reader).text().len(),
            old(reader).text()[old(reader).position()] == 'L',
        ensures
            final(reader).text() == old(reader).text(),
            match field_type_at(old(reader).text(), old(reader).position()) {
                Some((t, j)) => r matches Some(d) && d@ == t && final(reader).position() == j,
                None => r is None && final(reader).position() == old(reader).position(),
            },
    {
        proof {
            use_type_invariant(&*reader);
        }
        let ghost s = reader.chars@;
        let start = reader.pos + 1;
        let mut name = String::new();
        let mut j = start;
        while j < reader.chars.len() && reader.chars[j] != ';'
            invariant
                start <= j <= reader.chars.len(),
                reader.chars@ == s,
                name@ == s.subrange(start as int, j as int),
                semicolon_from(s, start as int) == semicolon_from(s, j as int),
            decreases reader.chars.len() - j,
        {
            name.push(reader.chars[j]);
            j = j + 1;
        }
        if j < reader.chars.len() {
            reader.pos = j + 1;
            Some(FieldDescriptor::ClassReference(name))
        } else {
            None
        }
    }
}

impl MethodDescriptor {
    /// Reads one method descriptor at the reader's position. Where the text
    /// holds one there, the reader ends just behind it; elsewhere the result is
    /// `None` and the reader has not moved.
    #[verifier::loop_isolation(false)]
    pub fn read_from(reader: &mut CharReader) -> (r: Option<Self>)
        ensures
            final(reader).text() == old(reader).text(),
            match method_signature_at(old(reader).text(), old(reader).position()) {
                Some((m, j)) => r matches Some(d) && d@ == m && final(reader).position() == j,
                None => r is None && final(reader).position() == old(reader).position(),
            },
    {
        proof {
            use_type_invariant(&*reader);
        }
        let ghost s = reader.chars@;
        let start = reader.pos;
        if reader.pos >= reader.chars.len() || reader.chars[reader.pos] != '(' {
            return None;
        }
        reader.pos = reader.pos + 1;
        let mut parameters: Vec<FieldDescriptor> = Vec::new();
        loop
            invariant
                reader.chars@ == s,
                start < reader.pos <= reader.chars.len(),
                parameters_at(s, start + 1) == (match parameters_at(s, reader.pos as int) {
                    Some((rest, end)) => Some((parameters.deep_view() + rest, end)),
                    None => None,
                }),
            decreases reader.chars.len() - reader.pos,
        {
            proof {
                use_type_invariant(&*reader);
            }
            if reader.pos >= reader.chars.len() {
                reader.pos = start;
                return None;
            }
            if reader.chars[reader.pos] == ')' {
                reader.pos = reader.pos + 1;
                assert(parameters.deep_view() + Seq::<FieldType>::empty()
                    == parameters.deep_view());
                break;
            }
            let ghost before = reader.pos as int;
            let ghost so_far = parameters.deep_view();
            proof {
                lemma_field_type_advances(s, before);
            }
            match FieldDescriptor::read_from(reader) {
                Some(t) => {
                    parameters.push(t);
                    proof {
                        use_type_invariant(&*reader);
                        assert(parameters.deep_view() == so_far + seq![t@]);
                        match parameters_at(s, reader.pos as int) {
                            Some((rest, end)) => {
                                assert(so_far + (seq![t@] + rest) == (so_far + seq![t@]) + rest);
                            },
                            None => {},
                        }
                    }
                },
                None => {
                    reader.pos = start;
                    return None;
                },
            }
        }
        proof {
            use_type_invariant(&*reader);
        }
        if reader.pos < reader.chars.len() && reader.chars[reader.pos] == 'V' {
            reader.pos = reader.pos + 1;
            return Some(MethodDescriptor { parameters, returns: None });
        }
        match FieldDescriptor::read_from(reader) {
            Some(t) => Some(MethodDescriptor { parameters, returns: Some(t) }),
            None => {
                reader.pos = start;
                None
            },
        }
    }
}

/// The descriptor text of the field type `t`.
pub open spec fn field_text(t: FieldType) -> Seq<char>
    decreases t,
{
    match t {
        FieldType::Byte => seq!['B'],
        FieldType::Char => seq!['C'],
        FieldType::Double => seq!['D'],
        FieldType::Float => seq!['F'],
        FieldType::Int => seq!['I'],
        FieldType::Long => seq!['J'],
        FieldType::ClassReference(name) => seq!['L'] + name + seq![';'],
        FieldType::Short => seq!['S'],
        FieldType::Boolean => seq!['Z'],
        FieldType::ArrayReference(of) => seq!['['] + field_text(*of),
    }
}

/// Whether no class name in `t` holds a `;`, which would end the name early
/// in a descriptor.
pub open spec fn names_ok(t: FieldType) -> bool
    decreases t,
{
    match t {
        FieldType::ClassReference(name) => forall|k: int| 0 <= k < name.len() ==> name[k] != ';',
        FieldType::ArrayReference(of) => names_ok(*of),
        _ => true,
    }
}

/// The descriptor texts of the field types `ts`, one behind the other.
pub open spec fn parameters_text(ts: Seq<FieldType>) -> Seq<char>
    decreases ts.len(),
{
    if ts.len() == 0 {
        Seq::<char>::empty()
    } else {
        field_text(ts[0]) + parameters_text(ts.skip(1))
    }
}

/// The descriptor text of the method signature `m`.
pub open spec fn signature_text(m: MethodSignature) -> Seq<char> {
    seq!['('] + parameters_text(m.parameters) + seq![')'] + (match m.returns {
        Some(t) => field_text(t),
        None => seq!['V'],
    })
}

/// Whether no class name in `m` holds a `;`.
pub open spec fn signature_names_ok(m: MethodSignature) -> bool {
    &&& forall|k: int| 0 <= k < m.parameters.len() ==> names_ok(#[trigger] m.parameters[k])
    &&& m.returns matches Some(t) ==> names_ok(t)
}

/// Where no `;` stands from `a` up to `b`, and one stands at `b`, the search
/// for a `;` from `a` ends at `b`.
pub proof fn lemma_semicolon_found(s: Seq<char>, a: int, b: int)
    requires
        0 <= a <= b < s.len(),
        forall|k: int| a <= k < b ==> s[k] != ';',
        s[b] == ';',
    ensures
        semicolon_from(s, a) == b,
    decreases b - a,
{
    if a < b {
        lemma_semicolon_found(s, a + 1, b);
    }
}

/// The text of a field type is not empty, and starts with none of `)` and
/// `V`.
pub proof fn lemma_field_text_head(t: FieldType)
    ensures
        field_text(t).len() > 0,
        field_text(t)[0] != ')',
        field_text(t)[0] != 'V',
{
}

/// Printing and reading back: where the text of the field type `t` stands in
/// `s` at the index `i`, reading a field type there gives `t`, and ends just
/// behind the text.
pub proof fn lemma_field_text_reads_back(s: Seq<char>, i: int, t: FieldType)
    requires
        names_ok(t),
        0 <= i,
        i + field_text(t).len() <= s.len(),
        s.subrange(i, i + field_text(t).len()) == field_text(t),
    ensures
        field_type_at(s, i) == Some((t, i + field_text(t).len())),
    decreases t,
{
    let text = field_text(t);
    lemma_field_text_head(t);
    assert(s[i] == s.subrange(i, i + text.len())[0]);
    match t {
        FieldType::ClassReference(name) => {
            let end = i + 1 + name.len();
            assert(text.len() == name.len() + 2);
            assert forall|k: int| i + 1 <= k < end implies s[k] != ';' by {
                assert(s[k] == s.subrange(i, i + text.len())[k - i]);
                assert(text[k - i] == name[k - i - 1]);
            }
            assert(s[end] == s.subrange(i, i + text.len())[end - i]);
            lemma_semicolon_found(s, i + 1, end);
            assert(s.subrange(i + 1, end) =~= name) by {
                assert forall|k: int| 0 <= k < name.len() implies s.subrange(i + 1, end)[k]
                    == name[k] by {
                    assert(s[i + 1 + k] == s.subrange(i, i + text.len())[k + 1]);
                    assert(text[k + 1] == name[k]);
                }
            }
        },
        FieldType::ArrayReference(of) => {
            let inner = field_text(*of);
            assert(text.len() == inner.len() + 1);
            assert(s.subrange(i + 1, i + 1 + inner.len()) =~= inner) by {
                assert forall|k: int| 0 <= k < inner.len() implies s.subrange(
                    i + 1,
                    i + 1 + inner.len(),
                )[k] == inner[k] by {
                    assert(s[i + 1 + k] == s.subrange(i, i + text.len())[k + 1]);
                    assert(text[k + 1] == inner[k]);
                }
            }
            lemma_field_text_reads_back(s, i + 1, *of);
        },
        _ => {},
    }
}

/// Reading and printing back: the field type that is read at the index `i`
/// of `s` has the text that stands there, and no `;` in its class names.
pub proof fn lemma_field_type_prints_back(s: Seq<char>, i: int)
    requires
        field_type_at(s, i) is Some,
    ensures
        ({
            let (t, j) = field_type_at(s, i)->0;
            &&& i < j <= s.len()
            &&& s.subrange(i, j) == field_text(t)
            &&& names_ok(t)
        }),
    decreases s.len() - i,
{
    let (t, j) = field_type_at(s, i)->0;
    lemma_field_type_advances(s, i);
    if s[i] == 'L' {
        let semi = semicolon_from(s, i + 1);
        lemma_semicolon_from_bounds(s, i + 1);
        assert(s.subrange(i, j) =~= seq!['L'] + s.subrange(i + 1, semi) + seq![';']);
    } else if s[i] == '[' {
        lemma_field_type_prints_back(s, i + 1);
        let (of, _) = field_type_at(s, i + 1)->0;
        assert(s.subrange(i, j) =~= seq!['['] + s.subrange(i + 1, j));
    } else {
        assert(s.subrange(i, j) =~= seq![s[i]]);
    }
}

/// Printing and reading back, for parameters: where the texts of the field
/// types `ts` stand in `s` from the index `i` on, with a `)` behind them,
/// reading the parameters there gives `ts`, and ends just behind the `)`.
pub proof fn lemma_parameters_read_back(s: Seq<char>, i: int, ts: Seq<FieldType>)
    requires
        forall|k: int| 0 <= k < ts.len() ==> names_ok(#[trigger] ts[k]),
        0 <= i,
        i + parameters_text(ts).len() < s.len(),
        s.subrange(i, i + parameters_text(ts).len()) == parameters_text(ts),
        s[i + parameters_text(ts).len()] == ')',
    ensures
        parameters_at(s, i) == Some((ts, i + parameters_text(ts).len() + 1)),
    decreases ts.len(),
{
    let text = parameters_text(ts);
    if ts.len() == 0 {
        assert(ts =~= Seq::<FieldType>::empty());
    } else {
        let first = field_text(ts[0]);
        let rest = parameters_text(ts.skip(1));
        lemma_field_text_head(ts[0]);
        assert(text == first + rest);
        assert(s[i] == s.subrange(i, i + text.len())[0]);
        assert(s.subrange(i, i + first.len()) =~= first) by {
            assert forall|k: int| 0 <= k < first.len() implies s.subrange(i, i + first.len())[k]
                == first[k] by {
                assert(s[i + k] == s.subrange(i, i + text.len())[k]);
            }
        }
        lemma_field_text_reads_back(s, i, ts[0]);
        let j = i + first.len();
        assert(s.subrange(j, j + rest.len()) =~= rest) by {
            assert forall|k: int| 0 <= k < rest.len() implies s.subrange(j, j + rest.len())[k]
                == rest[k] by {
                assert(s[j + k] == s.subrange(i, i + text.len())[first.len() + k]);
            }
        }
        assert forall|k: int| 0 <= k < ts.skip(1).len() implies names_ok(
            #[trigger] ts.skip(1)[k],
        ) by {
            assert(ts.skip(1)[k] == ts[k + 1]);
        }
        lemma_parameters_read_back(s, j, ts.skip(1));
        assert(seq![ts[0]] + ts.skip(1) =~= ts);
    }
}

/// Reading and printing back, for parameters.
pub proof fn lemma_parameters_print_back(s: Seq<char>, i: int)
    requires
        parameters_at(s, i) is Some,
    ensures
        ({
            let (ts, j) = parameters_at(s, i)->0;
            &&& i < j <= s.len()
            &&& s.subrange(i, j) == parameters_text(ts) + seq![')']
            &&& forall|k: int| 0 <= k < ts.len() ==> names_ok(#[trigger] ts[k])
        }),
    decreases s.len() - i,
{
    let (ts, j) = parameters_at(s, i)->0;
    if s[i] == ')' {
        assert(s.subrange(i, j) =~= parameters_text(ts) + seq![')']);
    } else {
        lemma_field_type_prints_back(s, i);
        let (t, mid) = field_type_at(s, i)->0;
        lemma_parameters_print_back(s, mid);
        let (rest, _) = parameters_at(s, mid)->0;
        assert(ts == seq![t] + rest);
        assert(ts.skip(1) =~= rest);
        assert(ts[0] == t);
        assert(s.subrange(i, j) =~= s.subrange(i, mid) + s.subrange(mid, j));
        assert(field_text(t) + (parameters_text(rest) + seq![')']) =~= (field_text(t)
            + parameters_text(rest)) + seq![')']);
        assert forall|k: int| 0 <= k < ts.len() implies names_ok(#[trigger] ts[k]) by {
            if k > 0 {
                assert(ts[k] == rest[k - 1]);
            }
        }
    }
}

/// A method descriptor round-trips: the text of a method signature, read as
/// a method descriptor, is that signature from the first character to the
/// last.
pub proof fn lemma_signature_reads_back(m: MethodSignature)
    requires
        signature_names_ok(m),
    ensures
        method_signature_at(signature_text(m), 0) == Some((m, signature_text(m).len() as int)),
{
    let s = signature_text(m);
    let params = parameters_text(m.parameters);
    let tail = match m.returns {
        Some(t) => field_text(t),
        None => seq!['V'],
    };
    assert(s =~= seq!['('] + params + seq![')'] + tail);
    assert(s[0] == '(');
    let n = params.len() as int;
    assert(s.subrange(1, 1 + n) =~= params);
    assert(s[1 + n] == ')');
    lemma_parameters_read_back(s, 1, m.parameters);
    let j: int = 1 + n + 1;
    match m.returns {
        Some(t) => {
            lemma_field_text_head(t);
            assert(s[j] == tail[0]);
            assert(s.subrange(j, j + tail.len()) =~= tail);
            lemma_field_text_reads_back(s, j, t);
        },
        None => {
            assert(s[j] == 'V');
        },
    }
}

/// The other way round: a text that reads as a method descriptor from its
/// first character to its last is the text of the signature that was read.
pub proof fn lemma_signature_prints_back(s: Seq<char>)
    requires
        method_signature_at(s, 0) matches Some((_, end)) && end == s.len(),
    ensures
        ({
            let (m, _) = method_signature_at(s, 0)->0;
            signature_text(m) == s && signature_names_ok(m)
        }),
{
    let (m, end) = method_signature_at(s, 0)->0;
    lemma_parameters_print_back(s, 1);
    let (ps, j) = parameters_at(s, 1)->0;
    if 0 <= j < s.len() && s[j] == 'V' {
        assert(s =~= seq!['('] + s.subrange(1, j) + seq!['V']);
        assert(signature_text(m) =~= seq!['('] + (parameters_text(ps) + seq![')']) + seq!['V']);
    } else {
        lemma_field_type_prints_back(s, j);
        let (t, _) = field_type_at(s, j)->0;
        assert(s =~= seq!['('] + s.subrange(1, j) + s.subrange(j, s.len() as int));
        assert(signature_text(m) =~= seq!['('] + (parameters_text(ps) + seq![')']) + field_text(
            t,
        ));
    }
}

} // verus!
