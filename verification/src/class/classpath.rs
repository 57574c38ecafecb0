//! The class source: the bytes of the class files that can be loaded, by
//! class name.

use crate::buffer::text_is;
use vstd::prelude::*;

verus! {

/// One class file of the source: the name of its class and its bytes.
#[derive(Debug)]
pub struct ClassSource {
    pub name: String,
    pub bytes: Vec<u8>,
}

impl View for ClassSource {
    type V = (Seq<char>, Seq<u8>);

    open spec fn view(&self) -> (Seq<char>, Seq<u8>) {
        (self.name@, self.bytes@)
    }
}

impl DeepView for ClassSource {
    type V = (Seq<char>, Seq<u8>);

    open spec fn deep_view(&self) -> (Seq<char>, Seq<u8>) {
        self@
    }
}

/// The index of the last occurrence of `name` in `entries`.
pub open spec fn source_index(entries: Seq<(Seq<char>, Seq<u8>)>, name: Seq<char>) -> Option<int>
    decreases entries.len(),
{
    if entries.len() == 0 {
        None
    } else if entries.last().0 == name {
        Some(entries.len() - 1)
    } else {
        source_index(entries.drop_last(), name)
    }
}

/// The bytes that stand beside the last occurrence of `name` in `entries`.
pub open spec fn source_lookup(entries: Seq<(Seq<char>, Seq<u8>)>, name: Seq<char>) -> Option<
    Seq<u8>,
> {
    match source_index(entries, name) {
        Some(i) => Some(entries[i].1),
        None => None,
    }
}

/// The class files that can be loaded. A class file that is put in under a
/// name that is there already takes the place of the earlier one.
#[derive(Debug)]
pub struct Classpath {
    pub root: Vec<ClassSource>,
}

impl View for Classpath {
    type V = Seq<(Seq<char>, Seq<u8>)>;

    open spec fn view(&self) -> Seq<(Seq<char>, Seq<u8>)> {
        self.root.deep_view()
    }
}

impl Classpath {
    /// A source without class files.
    pub fn new() -> (r: Self)
        ensures
            r@ == Seq::<(Seq<char>, Seq<u8>)>::empty(),
    {
        Classpath { root: Vec::new() }
    }

    /// Puts the class file `class` in under the name `path`.
    pub fn insert(&mut self, path: &str, class: Vec<u8>)
        ensures
            final(self)@ == old(self)@.push((path@, class@)),
            source_lookup(final(self)@, path@) == Some(class@),
    {
        let ghost entry = (path@, class@);
        self.root.push(ClassSource { name: path.to_owned(), bytes: class });
        assert(self.root.deep_view() == old(self).root.deep_view().push(entry));
    }

    /// The index of the class file that was last put in under the name
    /// `path`.
    pub fn find(&self, path: &str) -> (r: Option<usize>)
        ensures
            match r {
                Some(i) => source_index(self@, path@) == Some(i as int) && i < self.root.len(),
                None => source_index(self@, path@) is None,
            },
    {
        let ghost all = self.root.deep_view();
        let mut i: usize = self.root.len();
        assert(all.take(i as int) == all);
        while i > 0
            invariant
                i <= self.root.len(),
                all == self.root.deep_view(),
                source_index(all, path@) == source_index(all.take(i as int), path@),
            decreases i,
        {
            i = i - 1;
            assert(all.take(i + 1).drop_last() == all.take(i as int));
            assert(all.take(i + 1).last() == self.root[i as int]@);
            if text_is(self.root[i].name.as_str(), path) {
                return Some(i);
            }
        }
        None
    }

    /// The class file that was last put in under the name `path`.
    pub fn resolve(&self, path: &str) -> (r: Option<&Vec<u8>>)
        ensures
            match source_lookup(self@, path@) {
                Some(bytes) => r matches Some(out) && out@ == bytes,
                None => r is None,
            },
    {
        match self.find(path) {
            Some(i) => {
                assert(self.root.deep_view()[i as int] == self.root[i as int]@);
                Some(&self.root[i].bytes)
            },
            None => None,
        }
    }
}

} // verus!
