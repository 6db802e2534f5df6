//! Paths as text.
//!
//! A path is a sequence of characters whose components are separated by `/`.
//! Nothing here touches a file system: the functions only read the text.

use vstd::prelude::*;
use vstd::string::StringExecFns;

verus! {

/// Where the path ends once the separators and the `.` components at its end
/// are left out, counted in characters from the front of `path` and starting
/// from its first `end` characters.
pub open spec fn trimmed_end(path: Seq<char>, end: int) -> int
    recommends
        0 <= end <= path.len(),
    decreases end,
{
    if end >= 1 && path[end - 1] == '/' {
        trimmed_end(path, end - 1)
    } else if end >= 2 && path[end - 1] == '.' && path[end - 2] == '/' {
        trimmed_end(path, end - 1)
    } else {
        end
    }
}

/// Where the component that ends at `end` begins: just behind the last
/// separator before `end`, or at the front of the path if there is none.
pub open spec fn component_start(path: Seq<char>, end: int) -> int
    recommends
        0 <= end <= path.len(),
    decreases end,
{
    if end <= 0 {
        0
    } else if path[end - 1] == '/' {
        end
    } else {
        component_start(path, end - 1)
    }
}

/// A component that names something: it is not empty and is neither `.` nor `..`.
pub open spec fn is_normal(component: Seq<char>) -> bool {
    &&& component.len() > 0
    &&& component != seq!['.']
    &&& component != seq!['.', '.']
}

/// The last component of `path`, whatever it is.
pub open spec fn last_component(path: Seq<char>) -> Seq<char> {
    let end = trimmed_end(path, path.len() as int);
    path.subrange(component_start(path, end), end)
}

/// The file name of `path`: its last component, where that component names
/// something. Separators and `.` components at the end of the path are passed
/// over. A path that is empty, that is only a root, or that ends in `..` has
/// no file name.
pub open spec fn file_name(path: Seq<char>) -> Option<Seq<char>> {
    if is_normal(last_component(path)) {
        Some(last_component(path))
    } else {
        None
    }
}

/// `rest` appended to `base` as further components. An absolute `rest`
/// replaces `base`; a separator is put between the two unless `base` is empty
/// or already ends in one.
pub open spec fn join(base: Seq<char>, rest: Seq<char>) -> Seq<char> {
    if rest.len() > 0 && rest[0] == '/' {
        rest
    } else if base.len() == 0 || base.last() == '/' {
        base + rest
    } else {
        base + seq!['/'] + rest
    }
}

/// What is passed over at the end of a path: a separator, or a `.` that
/// stands directly behind one.
pub open spec fn passed_over(path: Seq<char>, i: int) -> bool {
    path[i] == '/' || (i >= 1 && path[i] == '.' && path[i - 1] == '/')
}

/// Where the last component lies. Everything behind it is passed over and its
/// own last character is not; it holds no separator, and it begins at the
/// front of the path or directly behind a separator.
pub proof fn law_last_component_lies_at_the_end(path: Seq<char>)
    ensures
        ({
            let end = trimmed_end(path, path.len() as int);
            let start = component_start(path, end);
            &&& 0 <= start <= end <= path.len()
            &&& forall|i: int| end <= i < path.len() ==> passed_over(path, i)
            &&& end > 0 ==> !passed_over(path, end - 1)
            &&& forall|i: int| start <= i < end ==> path[i] != '/'
            &&& start > 0 ==> path[start - 1] == '/'
        }),
{
    lemma_trimmed_end(path, path.len() as int);
    lemma_component_start(path, trimmed_end(path, path.len() as int));
}

/// What `trimmed_end` gives when it starts from `from`.
proof fn lemma_trimmed_end(path: Seq<char>, from: int)
    requires
        0 <= from,
    ensures
        ({
            let end = trimmed_end(path, from);
            &&& 0 <= end <= from
            &&& forall|i: int| end <= i < from ==> passed_over(path, i)
            &&& end > 0 ==> !passed_over(path, end - 1)
        }),
    decreases from,
{
    if from >= 1 && passed_over(path, from - 1) {
        lemma_trimmed_end(path, from - 1);
    }
}

/// What `component_start` gives for the component that ends at `end`.
proof fn lemma_component_start(path: Seq<char>, end: int)
    requires
        0 <= end,
    ensures
        ({
            let start = component_start(path, end);
            &&& 0 <= start <= end
            &&& forall|i: int| start <= i < end ==> path[i] != '/'
            &&& start > 0 ==> path[start - 1] == '/'
        }),
    decreases end,
{
    if end > 0 && path[end - 1] != '/' {
        lemma_component_start(path, end - 1);
    }
}

/// A component without a separator, put behind a directory that ends in a
/// separator, is the last component of the whole.
pub proof fn lemma_last_component_of_join(dir: Seq<char>, name: Seq<char>)
    requires
        is_normal(name),
        forall|i: int| 0 <= i < name.len() ==> name[i] != '/',
        dir.len() == 0 || dir.last() == '/',
    ensures
        last_component(dir + name) == name,
        file_name(dir + name) == Some(name),
{
    let path = dir + name;
    let len = path.len() as int;
    assert(path[len - 1] == name[name.len() - 1]);
    if path[len - 1] == '.' && len >= 2 && path[len - 2] == '/' {
        // The name would be `.`, which it is not.
        if name.len() >= 2 {
            assert(path[len - 2] == name[name.len() - 2]);
        } else {
            assert(name =~= seq!['.']);
        }
    }
    assert(trimmed_end(path, len) == len);
    lemma_start_of_join(dir, name, name.len() as int);
    assert(path.subrange(dir.len() as int, len) =~= name);
}

/// Walking back over the first `k` characters of `name` ends where `dir` ends.
proof fn lemma_start_of_join(dir: Seq<char>, name: Seq<char>, k: int)
    requires
        0 <= k <= name.len(),
        forall|i: int| 0 <= i < name.len() ==> name[i] != '/',
        dir.len() == 0 || dir.last() == '/',
    ensures
        component_start(dir + name, dir.len() + k) == dir.len(),
    decreases k,
{
    let path = dir + name;
    if k > 0 {
        assert(path[dir.len() + k - 1] == name[k - 1]);
        lemma_start_of_join(dir, name, k - 1);
    } else if dir.len() > 0 {
        assert(path[dir.len() - 1] == dir.last());
    }
}

/// The characters of `text`, in order.
pub(crate) fn chars_of(text: &str) -> (chars: Vec<char>)
    ensures
        chars@ == text@,
{
    let mut chars: Vec<char> = Vec::new();
    for c in it: text.chars()
        invariant
            chars@ == it.seq().take(it.index() as int),
            it.seq() == text@,
    {
        chars.push(c);
    }
    chars
}

/// The two ends of the last component of `chars`: where it begins and where
/// it stops.
pub(crate) fn last_component_span(chars: &Vec<char>) -> (span: (usize, usize))
    ensures
        span.1 == trimmed_end(chars@, chars@.len() as int),
        span.0 == component_start(chars@, span.1 as int),
        span.0 <= span.1 <= chars@.len(),
{
    let len: usize = chars.len();
    let mut end: usize = len;
    while end >= 1 && (chars[end - 1] == '/' || (end >= 2 && chars[end - 1] == '.'
        && chars[end - 2] == '/'))
        invariant
            end <= len == chars@.len(),
            trimmed_end(chars@, end as int) == trimmed_end(chars@, len as int),
        decreases end,
    {
        end = end - 1;
    }
    let mut start: usize = end;
    while start >= 1 && chars[start - 1] != '/'
        invariant
            start <= end <= chars@.len(),
            component_start(chars@, start as int) == component_start(chars@, end as int),
        decreases start,
    {
        start = start - 1;
    }
    (start, end)
}

/// Whether the component of `chars` between `start` and `end` names something.
fn is_normal_span(chars: &Vec<char>, start: usize, end: usize) -> (normal: bool)
    requires
        start <= end <= chars@.len(),
    ensures
        normal == is_normal(chars@.subrange(start as int, end as int)),
{
    let ghost component = chars@.subrange(start as int, end as int);
    let ghost one = seq!['.'];
    let ghost two = seq!['.', '.'];
    assert(one.len() == 1 && one[0] == '.');
    assert(two.len() == 2 && two[0] == '.' && two[1] == '.');
    let len: usize = end - start;
    if len == 1 {
        assert(component[0] == chars@[start as int]);
        assert(component[0] == '.' ==> component =~= one);
        chars[start] != '.'
    } else if len == 2 {
        assert(component[0] == chars@[start as int]);
        assert(component[1] == chars@[start + 1]);
        assert(component[0] == '.' && component[1] == '.' ==> component =~= two);
        !(chars[start] == '.' && chars[start + 1] == '.')
    } else {
        len > 0
    }
}

/// Whether `path` has a file name.
pub fn has_file_name(path: &str) -> (has: bool)
    ensures
        has == (file_name(path@) is Some),
{
    let chars = chars_of(path);
    let (start, end) = last_component_span(&chars);
    is_normal_span(&chars, start, end)
}

/// Joins `rest` to `base` as further components.
pub fn join_paths(base: &str, rest: &str) -> (joined: String)
    ensures
        joined@ == join(base@, rest@),
{
    let base_len: usize = base.unicode_len();
    if rest.unicode_len() > 0 && rest.get_char(0) == '/' {
        String::from_str(rest)
    } else if base_len == 0 || base.get_char(base_len - 1) == '/' {
        String::from_str(base).concat(rest)
    } else {
        proof {
            reveal_strlit("/");
            assert("/"@ =~= seq!['/']);
        }
        String::from_str(base).concat("/").concat(rest)
    }
}

} // verus!
