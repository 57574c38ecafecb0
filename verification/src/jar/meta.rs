//! What the manifest of an archive says about the program in it.

use crate::buffer::chars_of;
use crate::buffer::string_of;
use vstd::prelude::*;

verus! {

/// What the manifest says: the name of the class whose `main` starts the
/// program, where the manifest names one.
#[derive(Debug, Clone)]
pub struct JarMeta {
    pub main_class: Option<String>,
}

/// The mathematical value of a [`JarMeta`].
pub struct JarMetaModel {
    pub main_class: Option<Seq<char>>,
}

impl View for JarMeta {
    type V = JarMetaModel;

    open spec fn view(&self) -> JarMetaModel {
        JarMetaModel {
            main_class: match self.main_class {
                Some(name) => Some(name@),
                None => None,
            },
        }
    }
}

/// The key of the line that names the main class.
pub open spec fn main_class_key() -> Seq<char> {
    "Main-Class"@
}

/// Whether `c` is a character that is cut off the ends of a value: a space, a
/// tab, a carriage return or a line feed.
pub open spec fn is_blank(c: char) -> bool {
    c == ' ' || c == '\t' || c == '\r' || c == '\n'
}

/// The index of the first `c` of `s` in the range from `i` up to `end`, or
/// `end` where there is none.
pub open spec fn first_of(s: Seq<char>, c: char, i: int, end: int) -> int
    decreases end - i,
{
    if i >= end {
        end
    } else if s[i] == c {
        i
    } else {
        first_of(s, c, i + 1, end)
    }
}

/// The index of the first character of `s` in the range from `i` up to `end`
/// that is not blank, or `end` where all are.
pub open spec fn skip_blank(s: Seq<char>, i: int, end: int) -> int
    decreases end - i,
{
    if i >= end {
        end
    } else if !is_blank(s[i]) {
        i
    } else {
        skip_blank(s, i + 1, end)
    }
}

/// The index behind the last character of `s` in the range from `i` up to
/// `end` that is not blank, or `i` where all are.
pub open spec fn drop_blank(s: Seq<char>, i: int, end: int) -> int
    decreases end - i,
{
    if end <= i {
        i
    } else if !is_blank(s[end - 1]) {
        end
    } else {
        drop_blank(s, i, end - 1)
    }
}

/// Whether the text `p` stands in `s` at the index `i` and ends before `end`.
pub open spec fn has_prefix(s: Seq<char>, i: int, end: int, p: Seq<char>) -> bool {
    i + p.len() <= end && s.subrange(i, i + p.len()) == p
}

/// The main class that the line from `i` up to `end` names: the line starts
/// with `Main-Class` and holds a `:`, and the name is what stands between the
/// first `:` and the next one, or the end of the line, without the blanks at
/// its ends.
pub open spec fn line_main_class(s: Seq<char>, i: int, end: int) -> Option<Seq<char>> {
    if has_prefix(s, i, end, main_class_key()) {
        let colon = first_of(s, ':', i, end);
        if colon < end {
            let stop = first_of(s, ':', colon + 1, end);
            let from = skip_blank(s, colon + 1, stop);
            Some(s.subrange(from, drop_blank(s, from, stop)))
        } else {
            None
        }
    } else {
        None
    }
}

/// The main class that the lines of `s` from the index `i` on name; the last
/// line that names one decides. A line ends at a line feed.
pub open spec fn main_class_from(s: Seq<char>, i: int) -> Option<Seq<char>>
    decreases s.len() - i,
{
    if i < 0 || i >= s.len() {
        None
    } else {
        let end = first_of(s, '\n', i, s.len() as int);
        let later = if i <= end < s.len() {
            main_class_from(s, end + 1)
        } else {
            None
        };
        match later {
            Some(name) => Some(name),
            None => line_main_class(s, i, end),
        }
    }
}

/// The index of the first `c` in the range from `i` up to `end`.
fn find_first(s: &Vec<char>, c: char, i: usize, end: usize) -> (r: usize)
    requires
        i <= end <= s.len(),
    ensures
        r == first_of(s@, c, i as int, end as int),
        i <= r <= end,
{
    let mut k = i;
    while k < end && s[k] != c
        invariant
            i <= k <= end,
            end <= s.len(),
            first_of(s@, c, i as int, end as int) == first_of(s@, c, k as int, end as int),
        decreases end - k,
    {
        k = k + 1;
    }
    k
}

/// Whether `c` is blank.
fn blank(c: char) -> (r: bool)
    ensures
        r == is_blank(c),
{
    c == ' ' || c == '\t' || c == '\r' || c == '\n'
}

/// The index of the first character in the range that is not blank.
fn find_skip_blank(s: &Vec<char>, i: usize, end: usize) -> (r: usize)
    requires
        i <= end <= s.len(),
    ensures
        r == skip_blank(s@, i as int, end as int),
        i <= r <= end,
{
    let mut k = i;
    while k < end && blank(s[k])
        invariant
            i <= k <= end,
            end <= s.len(),
            skip_blank(s@, i as int, end as int) == skip_blank(s@, k as int, end as int),
        decreases end - k,
    {
        k = k + 1;
    }
    k
}

/// The index behind the last character in the range that is not blank.
fn find_drop_blank(s: &Vec<char>, i: usize, end: usize) -> (r: usize)
    requires
        i <= end <= s.len(),
    ensures
        r == drop_blank(s@, i as int, end as int),
        i <= r <= end,
{
    let mut k = end;
    while k > i && blank(s[k - 1])
        invariant
            i <= k <= end,
            end <= s.len(),
            drop_blank(s@, i as int, end as int) == drop_blank(s@, i as int, k as int),
        decreases k - i,
    {
        k = k - 1;
    }
    k
}

/// Whether the text `p` stands in `s` at the index `i` and ends before `end`.
fn starts_with(s: &Vec<char>, i: usize, end: usize, p: &Vec<char>) -> (r: bool)
    requires
        i <= end <= s.len(),
    ensures
        r == has_prefix(s@, i as int, end as int, p@),
{
    if p.len() > end - i {
        return false;
    }
    let mut k: usize = 0;
    while k < p.len()
        invariant
            k <= p.len(),
            i + p.len() <= end <= s.len(),
            forall|j: int| 0 <= j < k ==> s[i + j] == p[j],
        decreases p.len() - k,
    {
        if s[i + k] != p[k] {
            assert(s@.subrange(i as int, i + p.len())[k as int] != p@[k as int]);
            return false;
        }
        k = k + 1;
    }
    assert(s@.subrange(i as int, i + p.len()) =~= p@);
    true
}

/// A copy of the characters of `s` from `from` up to `to`.
fn copy_chars(s: &Vec<char>, from: usize, to: usize) -> (r: Vec<char>)
    requires
        from <= to <= s.len(),
    ensures
        r@ == s@.subrange(from as int, to as int),
{
    let mut out: Vec<char> = Vec::new();
    let mut k = from;
    while k < to
        invariant
            from <= k <= to,
            to <= s.len(),
            out@ == s@.subrange(from as int, k as int),
        decreases to - k,
    {
        out.push(s[k]);
        k = k + 1;
    }
    out
}

impl JarMeta {
    /// Reads what the manifest `manifest` says. The main class is the one
    /// that the last line names that starts with `Main-Class` and holds a `:`.
    #[verifier::loop_isolation(false)]
    pub fn from_manifest(manifest: &str) -> (r: Self)
        ensures
            r@.main_class == main_class_from(manifest@, 0),
    {
        let s = chars_of(manifest);
        let key = chars_of("Main-Class");
        let mut main_class: Option<String> = None;
        let mut i: usize = 0;
        while i < s.len()
            invariant
                i <= s.len(),
                s@ == manifest@,
                key@ == main_class_key(),
                main_class_from(s@, 0) == (match main_class_from(s@, i as int) {
                    Some(later) => Some(later),
                    None => match main_class {
                        Some(name) => Some(name@),
                        None => None,
                    },
                }),
            decreases s.len() - i,
        {
            let end = find_first(&s, '\n', i, s.len());
            if starts_with(&s, i, end, &key) {
                let colon = find_first(&s, ':', i, end);
                if colon < end {
                    let stop = find_first(&s, ':', colon + 1, end);
                    let from = find_skip_blank(&s, colon + 1, stop);
                    let to = find_drop_blank(&s, from, stop);
                    let name = copy_chars(&s, from, to);
                    main_class = Some(string_of(&name));
                }
            }
            if end < s.len() {
                i = end + 1;
            } else {
                i = end;
            }
        }
        JarMeta { main_class }
    }
}

} // verus!
