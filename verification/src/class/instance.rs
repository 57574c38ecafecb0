//! Instances: a mapping from field names to typed slots.

use crate::buffer::text_is;
use crate::class::method::Argument;
use crate::class::method::Slot;
use vstd::prelude::*;

verus! {

/// One named field of an instance.
#[derive(Debug)]
pub struct Field {
    pub name: String,
    pub value: Argument,
}

impl View for Field {
    type V = (Seq<char>, Slot);

    open spec fn view(&self) -> (Seq<char>, Slot) {
        (self.name@, self.value@)
    }
}

impl DeepView for Field {
    type V = (Seq<char>, Slot);

    open spec fn deep_view(&self) -> (Seq<char>, Slot) {
        self@
    }
}

/// The mapping in which each name of `entries` leads to the slot beside its
/// last occurrence.
pub open spec fn fields_of(entries: Seq<(Seq<char>, Slot)>) -> Map<Seq<char>, Slot>
    decreases entries.len(),
{
    if entries.len() == 0 {
        Map::empty()
    } else {
        fields_of(entries.drop_last()).insert(entries.last().0, entries.last().1)
    }
}

/// Whether no name stands twice in `entries`.
pub open spec fn distinct_names(entries: Seq<(Seq<char>, Slot)>) -> bool {
    forall|i: int, j: int|
        0 <= i < j < entries.len() ==> (#[trigger] entries[i]).0 != (#[trigger] entries[j]).0
}

/// A name that stands nowhere in `entries` leads nowhere.
pub proof fn lemma_fields_of_absent(entries: Seq<(Seq<char>, Slot)>, name: Seq<char>)
    requires
        forall|i: int| 0 <= i < entries.len() ==> (#[trigger] entries[i]).0 != name,
    ensures
        !fields_of(entries).dom().contains(name),
    decreases entries.len(),
{
    if entries.len() > 0 {
        lemma_fields_of_absent(entries.drop_last(), name);
    }
}

/// Where the names are distinct, each name leads to the slot beside it.
pub proof fn lemma_fields_of_present(entries: Seq<(Seq<char>, Slot)>, i: int)
    requires
        distinct_names(entries),
        0 <= i < entries.len(),
    ensures
        fields_of(entries).dom().contains(entries[i].0),
        fields_of(entries)[entries[i].0] == entries[i].1,
    decreases entries.len(),
{
    if i < entries.len() - 1 {
        assert(entries[i].0 != entries[entries.len() - 1].0);
        lemma_fields_of_present(entries.drop_last(), i);
    }
}

/// Where the names are distinct, writing a new slot beside a name changes the
/// mapping at that name alone.
pub proof fn lemma_fields_of_update(entries: Seq<(Seq<char>, Slot)>, i: int, value: Slot)
    requires
        distinct_names(entries),
        0 <= i < entries.len(),
    ensures
        fields_of(entries.update(i, (entries[i].0, value))) == fields_of(entries).insert(
            entries[i].0,
            value,
        ),
        distinct_names(entries.update(i, (entries[i].0, value))),
    decreases entries.len(),
{
    let name = entries[i].0;
    let updated = entries.update(i, (name, value));
    let last = entries.len() - 1;
    if i == last {
        assert(updated.drop_last() == entries.drop_last());
        assert(fields_of(entries.drop_last()).insert(name, entries[last].1).insert(name, value)
            == fields_of(entries.drop_last()).insert(name, value));
    } else {
        assert(entries[i].0 != entries[last].0);
        assert(updated.drop_last() == entries.drop_last().update(i, (name, value)));
        lemma_fields_of_update(entries.drop_last(), i, value);
        assert(fields_of(entries.drop_last()).insert(name, value).insert(
            entries[last].0,
            entries[last].1,
        ) == fields_of(entries.drop_last()).insert(entries[last].0, entries[last].1).insert(
            name,
            value,
        ));
    }
}

/// Where the names are distinct, the mapping has as many names as `entries`
/// has entries.
pub proof fn lemma_fields_of_len(entries: Seq<(Seq<char>, Slot)>)
    requires
        distinct_names(entries),
    ensures
        fields_of(entries).dom().finite(),
        fields_of(entries).dom().len() == entries.len(),
    decreases entries.len(),
{
    if entries.len() > 0 {
        let front = entries.drop_last();
        let last = entries.len() - 1;
        lemma_fields_of_len(front);
        assert forall|i: int| 0 <= i < front.len() implies (#[trigger] front[i]).0
            != entries.last().0 by {
            assert(entries[i].0 != entries[last].0);
        }
        lemma_fields_of_absent(front, entries.last().0);
        assert(fields_of(entries).dom() == fields_of(front).dom().insert(entries.last().0));
    }
}

/// The index of the field `name` among `fields`.
fn find(fields: &Vec<Field>, name: &str) -> (r: Option<usize>)
    ensures
        match r {
            Some(i) => i < fields.len() && fields[i as int].name@ == name@,
            None => forall|i: int| 0 <= i < fields.len() ==> (#[trigger] fields[i]).name@ != name@,
        },
{
    let mut i: usize = 0;
    while i < fields.len()
        invariant
            i <= fields.len(),
            forall|k: int| 0 <= k < i ==> (#[trigger] fields[k]).name@ != name@,
        decreases fields.len() - i,
    {
        if text_is(fields[i].name.as_str(), name) {
            return Some(i);
        }
        i = i + 1;
    }
    None
}

/// An instance: the fields that it holds, by name.
#[derive(Debug)]
pub struct Instance {
    fields: Vec<Field>,
}

impl View for Instance {
    type V = Map<Seq<char>, Slot>;

    closed spec fn view(&self) -> Map<Seq<char>, Slot> {
        fields_of(self.fields.deep_view())
    }
}

impl DeepView for Instance {
    type V = Map<Seq<char>, Slot>;

    open spec fn deep_view(&self) -> Map<Seq<char>, Slot> {
        self@
    }
}

impl Instance {
    #[verifier::type_invariant]
    spec fn inv(&self) -> bool {
        distinct_names(self.fields.deep_view())
    }

    /// An instance without fields.
    pub fn new() -> (r: Self)
        ensures
            r@ == Map::<Seq<char>, Slot>::empty(),
    {
        Instance { fields: Vec::new() }
    }

    /// The slot of the field `name`, where the instance has that field.
    pub fn get(&self, name: &str) -> (r: Option<&Argument>)
        ensures
            match r {
                Some(slot) => self@.dom().contains(name@) && self@[name@] == slot@,
                None => !self@.dom().contains(name@),
            },
    {
        proof {
            use_type_invariant(self);
        }
        match find(&self.fields, name) {
            Some(i) => {
                proof {
                    assert(self.fields.deep_view()[i as int] == self.fields[i as int]@);
                    lemma_fields_of_present(self.fields.deep_view(), i as int);
                }
                Some(&self.fields[i].value)
            },
            None => {
                proof {
                    assert forall|i: int| 0 <= i < self.fields.deep_view().len() implies (
                    #[trigger] self.fields.deep_view()[i]).0 != name@ by {
                        assert(self.fields.deep_view()[i] == self.fields[i]@);
                    }
                    lemma_fields_of_absent(self.fields.deep_view(), name@);
                }
                None
            },
        }
    }

    /// Gives the field `name` the slot `value`, whether the instance had that
    /// field or not.
    pub fn insert(&mut self, name: String, value: Argument)
        ensures
            final(self)@ == old(self)@.insert(name@, value@),
    {
        proof {
            use_type_invariant(&*self);
        }
        let ghost before = self.fields.deep_view();
        let mut fields: Vec<Field> = Vec::new();
        core::mem::swap(&mut self.fields, &mut fields);
        match find(&fields, name.as_str()) {
            Some(i) => {
                proof {
                    assert(before[i as int] == fields[i as int]@);
                    lemma_fields_of_update(before, i as int, value@);
                }
                let ghost entry = (name@, value@);
                fields.set(i, Field { name, value });
                proof {
                    assert(fields.deep_view() == before.update(i as int, entry));
                }
            },
            None => {
                let ghost entry = (name@, value@);
                let ghost old_fields = fields;
                fields.push(Field { name, value });
                proof {
                    let after = fields.deep_view();
                    assert(after == before.push(entry));
                    assert(after.drop_last() == before);
                    assert forall|i: int, j: int| 0 <= i < j < after.len() implies (
                    #[trigger] after[i]).0 != (#[trigger] after[j]).0 by {
                        if j == after.len() - 1 {
                            assert(before[i] == old_fields[i]@);
                        }
                    }
                }
            },
        }
        core::mem::swap(&mut self.fields, &mut fields);
    }

    /// How many fields the instance has.
    pub fn len(&self) -> (r: usize)
        ensures
            self@.dom().finite() && r == self@.dom().len(),
    {
        proof {
            use_type_invariant(self);
            lemma_fields_of_len(self.fields.deep_view());
        }
        self.fields.len()
    }
}

} // verus!
