//! Archives of class files: how the name of an entry of the archive leads to
//! the name of a class.

pub mod meta;

use crate::buffer::chars_of;
use crate::buffer::string_of;
use vstd::prelude::*;

verus! {

/// What ends the name of every entry that holds a class file.
pub open spec fn class_suffix() -> Seq<char> {
    ".class"@
}

/// The class name that the entry `file_name` of an archive holds the class
/// file of: the name of the entry without the `.class` that it ends with.
/// `None` for an entry that does not end so.
pub open spec fn class_of_entry(file_name: Seq<char>) -> Option<Seq<char>> {
    if file_name.len() >= class_suffix().len() && file_name.subrange(
        file_name.len() - class_suffix().len(),
        file_name.len() as int,
    ) == class_suffix() {
        Some(file_name.subrange(0, file_name.len() - class_suffix().len()))
    } else {
        None
    }
}

/// The class name that the entry `file_name` of an archive holds the class
/// file of.
#[verifier::loop_isolation(false)]
pub fn class_entry_name(file_name: &str) -> (r: Option<String>)
    ensures
        match class_of_entry(file_name@) {
            Some(name) => r matches Some(out) && out@ == name,
            None => r is None,
        },
{
    let s = chars_of(file_name);
    let suffix = chars_of(".class");
    if s.len() < suffix.len() {
        return None;
    }
    let at = s.len() - suffix.len();
    let mut k: usize = 0;
    while k < suffix.len()
        invariant
            k <= suffix.len(),
            at + suffix.len() == s.len(),
            forall|j: int| 0 <= j < k ==> s[at + j] == suffix[j],
        decreases suffix.len() - k,
    {
        if s[at + k] != suffix[k] {
            assert(s@.subrange(at as int, s@.len() as int)[k as int] != suffix@[k as int]);
            return None;
        }
        k = k + 1;
    }
    assert(s@.subrange(at as int, s@.len() as int) =~= suffix@);
    let mut name: Vec<char> = Vec::new();
    let mut i: usize = 0;
    while i < at
        invariant
            i <= at <= s.len(),
            name@ == s@.subrange(0, i as int),
        decreases at - i,
    {
        name.push(s[i]);
        i = i + 1;
    }
    Some(string_of(&name))
}

} // verus!
