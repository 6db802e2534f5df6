//! The entry of a password store, and how one is made from the path of its file.

use crate::path::{chars_of, file_name, last_component_span};
use vstd::prelude::*;
use vstd::string::StringExecFns;

verus! {

/// One entry of the store.
#[derive(Debug, PartialEq, Eq)]
pub struct Password {
    /// What the entry is called: the file name without its suffix.
    pub name: String,
    /// Kept for a description of the entry; always empty here.
    pub meta: String,
    /// The path of the file that holds the entry.
    pub filename: String,
}

/// What a `Password` holds, as plain text.
pub struct PasswordView {
    pub name: Seq<char>,
    pub meta: Seq<char>,
    pub filename: Seq<char>,
}

impl View for Password {
    type V = PasswordView;

    open spec fn view(&self) -> PasswordView {
        PasswordView { name: self.name@, meta: self.meta@, filename: self.filename@ }
    }
}

impl Clone for Password {
    fn clone(&self) -> (copy: Password)
        ensures
            copy@ == self@,
    {
        Password {
            name: self.name.clone(),
            meta: self.meta.clone(),
            filename: self.filename.clone(),
        }
    }
}

/// The suffix that the file of every entry carries: `.gpg`.
pub open spec fn suffix() -> Seq<char> {
    seq!['.', 'g', 'p', 'g']
}

/// `name` without the `.gpg` at its end, if it has one there. Only that one
/// is taken: what is left may itself end in `.gpg`.
pub open spec fn strip_suffix(name: Seq<char>) -> Seq<char> {
    if suffix().is_suffix_of(name) {
        name.take(name.len() - 4)
    } else {
        name
    }
}

/// The name of the entry whose file is `path`: its file name without the
/// suffix.
pub open spec fn name_of(path: Seq<char>) -> Seq<char>
    recommends
        file_name(path) is Some,
{
    strip_suffix(file_name(path).unwrap())
}

/// The entry whose file is `path`.
pub open spec fn entry_of(path: Seq<char>) -> PasswordView
    recommends
        file_name(path) is Some,
{
    PasswordView { name: name_of(path), meta: Seq::empty(), filename: path }
}

/// Stripping takes exactly the suffix: a name that ends in `.gpg` is what is
/// left of it followed by `.gpg`, and any other name is left as it is.
pub proof fn law_stripped_name(name: Seq<char>)
    ensures
        suffix().is_suffix_of(name) ==> strip_suffix(name) + suffix() == name,
        !suffix().is_suffix_of(name) ==> strip_suffix(name) == name,
        strip_suffix(name).is_prefix_of(name),
{
    if suffix().is_suffix_of(name) {
        assert(strip_suffix(name) + suffix() =~= name);
    }
    assert(strip_suffix(name) =~= name.subrange(0, strip_suffix(name).len() as int));
}

/// Where the component of `chars` between `start` and `end` stops once the
/// suffix at its end is taken away.
fn stripped_end(chars: &Vec<char>, start: usize, end: usize) -> (stop: usize)
    requires
        start <= end <= chars@.len(),
    ensures
        start <= stop <= end,
        chars@.subrange(start as int, stop as int) == strip_suffix(
            chars@.subrange(start as int, end as int),
        ),
{
    let ghost whole = chars@.subrange(start as int, end as int);
    if end - start >= 4 && chars[end - 4] == '.' && chars[end - 3] == 'g' && chars[end - 2] == 'p'
        && chars[end - 1] == 'g' {
        proof {
            assert(whole.subrange(whole.len() - 4, whole.len() as int) =~= suffix());
            assert(whole.take(whole.len() - 4) =~= chars@.subrange(start as int, end - 4));
        }
        end - 4
    } else {
        proof {
            if suffix().is_suffix_of(whole) {
                let tail = whole.subrange(whole.len() - 4, whole.len() as int);
                assert(tail[0] == '.' && tail[1] == 'g' && tail[2] == 'p' && tail[3] == 'g');
            }
        }
        end
    }
}

/// The name of the entry whose file is `path`: the file name of the path
/// without the `.gpg` at its end, if it has one there.
pub fn to_name(path: &str) -> (name: String)
    requires
        file_name(path@) is Some,
    ensures
        name@ == name_of(path@),
{
    let chars = chars_of(path);
    let (start, end) = last_component_span(&chars);
    let stop = stripped_end(&chars, start, end);
    String::from_str(path.substring_char(start, stop))
}

/// The entry whose file is `path`. Its name is `to_name` of the path, its
/// description is empty, and it keeps the path as it was given.
pub fn to_password(path: String) -> (entry: Password)
    requires
        file_name(path@) is Some,
    ensures
        entry@ == entry_of(path@),
{
    let name = to_name(path.as_str());
    Password { name, meta: String::new(), filename: path }
}

} // verus!
