//! Paths as text, in the notation of Unix.
use crate::search::last_match;
use crate::text::same;
use vstd::prelude::*;

verus! {

/// A path continued by another: an absolute one takes its place.
pub open spec fn path_join(base: Seq<char>, part: Seq<char>) -> Seq<char> {
    if is_absolute_path(part) {
        part
    } else if base.len() == 0 || base.last() == '/' {
        base + part
    } else {
        base.push('/') + part
    }
}

/// Whether a path starts at the root.
pub open spec fn is_absolute_path(path: Seq<char>) -> bool {
    path.len() > 0 && path[0] == '/'
}

/// Whether a path starts at the root.
pub fn is_absolute(path: &str) -> (answer: bool)
    ensures
        answer == is_absolute_path(path@),
{
    !path.is_empty() && path.get_char(0) == '/'
}

/// A path continued by another: an absolute one takes its place.
pub fn join(base: &str, part: &str) -> (path: String)
    ensures
        path@ == path_join(base@, part@),
{
    if is_absolute(part) {
        return part.to_owned();
    }
    let n: usize = base.unicode_len();
    let mut path = base.to_owned();
    if n > 0 && base.get_char(n - 1) != '/' {
        path.push('/');
    }
    path.append(part);
    path
}

/// A path without the slashes at its end, and without the dots that stand for the directory.
pub open spec fn without_trail(path: Seq<char>) -> Seq<char>
    decreases path.len(),
{
    let n = path.len();
    if n > 0 && path[n - 1] == '/' {
        without_trail(path.drop_last())
    } else if n > 1 && path[n - 1] == '.' && path[n - 2] == '/' {
        without_trail(path.drop_last().drop_last())
    } else {
        path
    }
}

/// What follows the last slash of a path.
pub open spec fn last_part(path: Seq<char>) -> Seq<char>
    decreases path.len(),
{
    if path.len() == 0 || path.last() == '/' {
        Seq::empty()
    } else {
        last_part(path.drop_last()).push(path.last())
    }
}

/// Whether a character is a dot, as a question.
pub open spec fn dot() -> spec_fn(char) -> bool {
    |c: char| c == '.'
}

/// What follows the last dot of a file name, if there is such a dot and something before it.
pub open spec fn name_extension(name: Seq<char>) -> Option<Seq<char>> {
    match last_match(name, dot()) {
        Some(i) => if i > 0 {
            Some(name.skip(i + 1))
        } else {
            None
        },
        None => None,
    }
}

/// The extension of the file that a path names, if it names one and that has one.
pub open spec fn path_extension(path: Seq<char>) -> Option<Seq<char>> {
    let name = last_part(without_trail(path));
    if name == seq!['.'] || name == seq!['.', '.'] {
        None
    } else {
        name_extension(name)
    }
}

/// A file name after a slash is what follows the last slash.
pub proof fn lemma_last_part(base: Seq<char>, name: Seq<char>)
    requires
        base.len() == 0 || base.last() == '/',
        forall|i: int| 0 <= i < name.len() ==> (#[trigger] name[i]) != '/',
    ensures
        last_part(base + name) == name,
    decreases name.len(),
{
    let path = base + name;
    if name.len() == 0 {
        assert(path =~= base);
    } else {
        assert(path.drop_last() =~= base + name.drop_last());
        lemma_last_part(base, name.drop_last());
        assert(name.drop_last().push(name.last()) =~= name);
    }
}

/// `std::path::Path::extension` of a path given as text: what follows the last dot of the file
/// name, where there is such a name with such a dot that is not its first character. Slashes at
/// the end of the path and `/.` there do not count, and `.` and `..` are no file names.
#[verifier::external_body]
pub(crate) fn extension(path: &str) -> (found: Option<String>)
    ensures
        found.deep_view() == path_extension(path@),
{
    std::path::Path::new(path).extension().map(|e| e.to_string_lossy().into_owned())
}

/// The text without a given end, if it has that end.
pub open spec fn without_end(s: Seq<char>, end: Seq<char>) -> Option<Seq<char>> {
    if end.is_suffix_of(s) {
        Some(s.take(s.len() - end.len()))
    } else {
        None
    }
}

/// The text without a given end, if it has that end.
pub fn strip_end(s: &str, end: &str) -> (rest: Option<String>)
    ensures
        rest.deep_view() == without_end(s@, end@),
{
    let n: usize = s.unicode_len();
    let k: usize = end.unicode_len();
    if n < k {
        return None;
    }
    let tail = s.substring_char(n - k, n);
    proof {
        assert(s@.subrange(n - k, n as int) =~= s@.skip(n - k));
    }
    if same(tail, end) {
        let rest = s.substring_char(0, n - k);
        proof {
            assert(s@.subrange(0, n - k) =~= s@.take(n - k));
        }
        Some(rest.to_owned())
    } else {
        None
    }
}

} // verus!
