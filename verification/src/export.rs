//! Saving a transcript as a text file: which path, which contents.
use crate::config::result_view;
use crate::error::Error;
use crate::paths;
use crate::paths::{dot, is_absolute_path, lemma_last_part, path_extension, path_join};
use crate::search::lemma_is_last;
use crate::text;
use crate::text::{alphanumeric, control, lemma_bare_is_trimmed, trimmed};
use vstd::prelude::*;

verus! {

/// Where the user is: their home directory, if it is known, and the directory they work in, or
/// why it is not known.
#[derive(Debug)]
pub struct Places<S = String> {
    pub home: Option<S>,
    pub current: Result<S, S>,
}

impl DeepView for Places {
    type V = Places<Seq<char>>;

    open spec fn deep_view(&self) -> Places<Seq<char>> {
        Places {
            home: self.home.deep_view(),
            current: match self.current {
                Ok(path) => Ok(path@),
                Err(words) => Err(words@),
            },
        }
    }
}

/// A character as it may stand in a suggested file name.
pub open spec fn file_char(c: char) -> char {
    if alphanumeric(c) || c == '-' || c == '_' {
        c
    } else {
        '_'
    }
}

/// A name with every character as it may stand in a file name.
pub open spec fn file_chars(name: Seq<char>) -> Seq<char> {
    Seq::new(name.len(), |i: int| file_char(name[i]))
}

/// The text without underscores in front.
pub open spec fn bare_start(s: Seq<char>) -> Seq<char>
    decreases s.len(),
{
    if s.len() > 0 && s[0] == '_' {
        bare_start(s.drop_first())
    } else {
        s
    }
}

/// The text without underscores at its end.
pub open spec fn bare_end(s: Seq<char>) -> Seq<char>
    decreases s.len(),
{
    if s.len() > 0 && s.last() == '_' {
        bare_end(s.drop_last())
    } else {
        s
    }
}

/// The file name, without an extension, that stands for the name of a tab.
pub open spec fn file_stem(name: Seq<char>) -> Seq<char> {
    let bare = bare_end(bare_start(file_chars(name)));
    if bare.len() == 0 {
        "transcript"@
    } else {
        bare
    }
}

/// The directory that a suggestion starts from.
pub open spec fn starting_directory(places: Places<Seq<char>>) -> Seq<char> {
    match places.current {
        Ok(path) => path,
        Err(_) => match places.home {
            Some(home) => home,
            None => Seq::empty(),
        },
    }
}

/// The path that is suggested for a tab.
pub open spec fn suggestion(name: Seq<char>, places: Places<Seq<char>>) -> Seq<char> {
    path_join(starting_directory(places), file_stem(name) + ".txt"@)
}

fn without_underscores(s: String) -> (bare: String)
    ensures
        bare@ == bare_end(bare_start(s@)),
{
    let n: usize = s.as_str().unicode_len();
    let mut start: usize = 0;
    proof {
        assert(s@.subrange(0, n as int) =~= s@);
    }
    while start < n && s.as_str().get_char(start) == '_'
        invariant
            start <= n,
            n == s@.len(),
            bare_start(s@) == bare_start(s@.subrange(start as int, n as int)),
        decreases n - start,
    {
        proof {
            assert(s@.subrange(start as int, n as int).drop_first() =~= s@.subrange(
                start + 1,
                n as int,
            ));
        }
        start += 1;
    }
    let mut end: usize = n;
    while end > start && s.as_str().get_char(end - 1) == '_'
        invariant
            start <= end <= n,
            n == s@.len(),
            bare_end(s@.subrange(start as int, n as int)) == bare_end(
                s@.subrange(start as int, end as int),
            ),
        decreases end,
    {
        proof {
            assert(s@.subrange(start as int, end as int).drop_last() =~= s@.subrange(
                start as int,
                end - 1,
            ));
        }
        end -= 1;
    }
    s.as_str().substring_char(start, end).to_owned()
}

/// The path that is suggested for a tab with this name.
pub fn suggested_path(name: &str, places: &Places) -> (path: String)
    ensures
        path@ == suggestion(name@, places.deep_view()),
{
    let mut filename = String::new();
    for c in it: name.chars()
        invariant
            it.seq() == name@,
            filename@.len() == it.index(),
            forall|i: int| 0 <= i < it.index() ==> filename@[i] == file_char(name@[i]),
    {
        filename.push(
            if c.is_alphanumeric() || c == '-' || c == '_' {
                c
            } else {
                '_'
            },
        );
    }
    proof {
        assert(filename@ =~= file_chars(name@));
    }
    let bare = without_underscores(filename);
    let mut filename = if bare.as_str().is_empty() {
        "transcript".to_owned()
    } else {
        bare
    };
    filename.append(".txt");
    match &places.current {
        Ok(current) => paths::join(current.as_str(), filename.as_str()),
        Err(_) => match &places.home {
            Some(home) => paths::join(home.as_str(), filename.as_str()),
            None => {
                let nowhere = String::new();
                paths::join(nowhere.as_str(), filename.as_str())
            },
        },
    }
}

/// Whether an extension is that of a text file, in capitals or not.
pub open spec fn text_extension(extension: Seq<char>) -> bool {
    &&& extension.len() == 3
    &&& extension[0] == 't' || extension[0] == 'T'
    &&& extension[1] == 'x' || extension[1] == 'X'
    &&& extension[2] == 't' || extension[2] == 'T'
}

fn is_text_extension(extension: &str) -> (answer: bool)
    ensures
        answer == text_extension(extension@),
{
    if extension.unicode_len() != 3 {
        return false;
    }
    let first = extension.get_char(0);
    let second = extension.get_char(1);
    let third = extension.get_char(2);
    (first == 't' || first == 'T') && (second == 'x' || second == 'X') && (third == 't' || third
        == 'T')
}

/// A path that a name stands for, before its extension is looked at: `~/` is the home directory,
/// and a relative path starts in the working directory.
pub open spec fn located(input: Seq<char>, places: Places<Seq<char>>) -> Result<
    Seq<char>,
    Error<Seq<char>>,
> {
    if "~/"@.is_prefix_of(input) && places.home is None {
        Err(Error::HomeUnknown)
    } else {
        let path = if "~/"@.is_prefix_of(input) {
            path_join(places.home->0, input.skip(2))
        } else {
            input
        };
        if is_absolute_path(path) {
            Ok(path)
        } else {
            match places.current {
                Ok(current) => Ok(path_join(current, path)),
                Err(words) => Err(Error::Outside(words)),
            }
        }
    }
}

/// A path with the extension of a text file, added where another or none is there.
pub open spec fn with_text_extension(path: Seq<char>) -> Seq<char> {
    if path_extension(path) is Some && text_extension(path_extension(path)->0) {
        path
    } else {
        path + ".txt"@
    }
}

/// The path to save to that a name stands for.
pub open spec fn resolved(input: Seq<char>, places: Places<Seq<char>>) -> Result<
    Seq<char>,
    Error<Seq<char>>,
> {
    if trimmed(input).len() == 0 {
        Err(Error::NoExportName)
    } else {
        match located(trimmed(input), places) {
            Ok(path) => Ok(with_text_extension(path)),
            Err(error) => Err(error),
        }
    }
}

/// The path that a name stands for, before its extension is looked at.
pub fn locate(input: &str, places: &Places) -> (path: Result<String, Error>)
    ensures
        result_view(path) == located(input@, places.deep_view()),
{
    proof {
        reveal_strlit("~/");
    }
    let path = if text::starts_with(input, "~/") {
        let home = match &places.home {
            Some(home) => home,
            None => return Err(Error::HomeUnknown),
        };
        let n: usize = input.unicode_len();
        let rest = input.substring_char(2, n);
        proof {
            assert(input@.subrange(2, n as int) =~= input@.skip(2));
        }
        paths::join(home.as_str(), rest)
    } else {
        input.to_owned()
    };
    if paths::is_absolute(path.as_str()) {
        return Ok(path);
    }
    match &places.current {
        Ok(current) => Ok(paths::join(current.as_str(), path.as_str())),
        Err(words) => Err(Error::Outside(words.clone())),
    }
}

/// A path with the extension of a text file, from the extension that it has.
pub fn complete(path: String, extension: Option<String>) -> (completed: String)
    ensures
        completed@ == if extension is Some && text_extension(extension->0@) {
            path@
        } else {
            path@ + ".txt"@
        },
{
    if let Some(extension) = &extension {
        if is_text_extension(extension.as_str()) {
            return path;
        }
    }
    let mut path = path;
    path.append(".txt");
    path
}

/// The path to save to that a name stands for, seen from where the user is.
pub fn resolve_path(input: &str, places: &Places) -> (path: Result<String, Error>)
    ensures
        result_view(path) == resolved(input@, places.deep_view()),
{
    let input = input.trim();
    if input.is_empty() {
        return Err(Error::NoExportName);
    }
    match locate(input, places) {
        Ok(path) => {
            let extension = paths::extension(path.as_str());
            Ok(complete(path, extension))
        },
        Err(error) => Err(error),
    }
}

/// A text as it stands in a file: its last line is ended.
pub open spec fn file_contents(text: Seq<char>) -> Seq<char> {
    if text.len() > 0 && text.last() == '\n' {
        text
    } else {
        text + "\n"@
    }
}

/// Why a text may not be saved at a path, if it may not.
pub open spec fn export_refusal(path: Seq<char>, text: Seq<char>) -> Option<Error<Seq<char>>> {
    if text.len() == 0 {
        Some(Error::NothingToExport)
    } else if !is_absolute_path(path) {
        Some(Error::RelativeExportPath)
    } else {
        None
    }
}

/// What to write into a new file at a path, where a text may be saved there.
pub fn write(path: &str, text: &str) -> (contents: Result<String, Error>)
    ensures
        match export_refusal(path@, text@) {
            Some(error) => contents is Err && contents->Err_0.deep_view() == error,
            None => contents is Ok && contents->Ok_0@ == file_contents(text@),
        },
{
    if text.is_empty() {
        return Err(Error::NothingToExport);
    }
    if !paths::is_absolute(path) {
        return Err(Error::RelativeExportPath);
    }
    let n: usize = text.unicode_len();
    let mut contents = text.to_owned();
    if text.get_char(n - 1) != '\n' {
        contents.append("\n");
    }
    Ok(contents)
}

/// A path that a name stands for can be saved to: where the directories are known from the root
/// on, so is the path, and only a text with nothing in it is refused there.
pub proof fn law_found_path_is_accepted(
    input: Seq<char>,
    places: Places<Seq<char>>,
    text: Seq<char>,
)
    requires
        places.home matches Some(home) ==> is_absolute_path(home),
        places.current matches Ok(current) ==> is_absolute_path(current),
        text.len() > 0,
    ensures
        resolved(input, places) matches Ok(path) ==> export_refusal(path, text) is None,
{
}

/// A file name that stands for a tab holds letters, numbers, hyphens and underscores only.
proof fn lemma_file_stem(name: Seq<char>)
    ensures
        file_stem(name).len() > 0,
        forall|i: int|
            0 <= i < file_stem(name).len() ==> {
                let c = #[trigger] file_stem(name)[i];
                alphanumeric(c) || c == '-' || c == '_'
            },
{
    let chars = file_chars(name);
    lemma_bare_start(chars);
    lemma_bare_end(bare_start(chars));
    reveal_strlit("transcript");
}

proof fn lemma_bare_start(s: Seq<char>)
    ensures
        forall|i: int| 0 <= i < bare_start(s).len() ==> s.contains(#[trigger] bare_start(s)[i]),
    decreases s.len(),
{
    if s.len() > 0 && s[0] == '_' {
        let rest = s.drop_first();
        lemma_bare_start(rest);
        assert forall|i: int| 0 <= i < bare_start(s).len() implies s.contains(
            #[trigger] bare_start(s)[i],
        ) by {
            assert(rest.contains(bare_start(rest)[i]));
            let j = choose|j: int| 0 <= j < rest.len() && rest[j] == bare_start(rest)[i];
            assert(s[j + 1] == rest[j]);
        }
    }
}

proof fn lemma_bare_end(s: Seq<char>)
    ensures
        forall|i: int| 0 <= i < bare_end(s).len() ==> s.contains(#[trigger] bare_end(s)[i]),
    decreases s.len(),
{
    if s.len() > 0 && s.last() == '_' {
        let rest = s.drop_last();
        lemma_bare_end(rest);
        assert forall|i: int| 0 <= i < bare_end(s).len() implies s.contains(
            #[trigger] bare_end(s)[i],
        ) by {
            assert(rest.contains(bare_end(rest)[i]));
            let j = choose|j: int| 0 <= j < rest.len() && rest[j] == bare_end(rest)[i];
            assert(s[j] == rest[j]);
        }
    }
}

/// The file that is suggested for a tab lies in the directory that the suggestion starts from: its
/// name holds no slash, and no control character, whatever the tab is called.
pub proof fn law_suggestion_is_a_plain_name(name: Seq<char>, places: Places<Seq<char>>)
    ensures
        ({
            let file = file_stem(name) + ".txt"@;
            &&& suggestion(name, places) == path_join(starting_directory(places), file)
            &&& forall|i: int|
                0 <= i < file.len() ==> (#[trigger] file[i]) != '/' && !control(file[i])
        }),
{
    let stem = file_stem(name);
    let file = stem + ".txt"@;
    lemma_file_stem(name);
    reveal_strlit(".txt");
    assert forall|i: int| 0 <= i < file.len() implies (#[trigger] file[i]) != '/' && !control(
        file[i],
    ) by {
        if i < stem.len() {
            assert(file[i] == stem[i]);
        }
    }
}

/// The path that is suggested for a tab is taken as it stands.
pub proof fn law_suggestion_is_kept(name: Seq<char>, places: Places<Seq<char>>)
    requires
        places.current matches Ok(current) && is_absolute_path(current),
    ensures
        resolved(suggestion(name, places), places) == Ok::<Seq<char>, Error<Seq<char>>>(
            suggestion(name, places),
        ),
{
    let current = places.current->Ok_0;
    let stem = file_stem(name);
    let file = stem + ".txt"@;
    let path = suggestion(name, places);
    lemma_file_stem(name);
    reveal_strlit(".txt");
    reveal_strlit("~/");
    assert(file[0] == stem[0]);
    assert(file.last() == 't');
    let base = if current.last() == '/' {
        current
    } else {
        current.push('/')
    };
    assert(path == base + file);
    assert(path[0] == '/');
    assert(path.last() == 't');
    lemma_bare_is_trimmed(path);
    assert(!"~/"@.is_prefix_of(path)) by {
        assert("~/"@[0] == '~');
    }
    law_suggestion_is_a_plain_name(name, places);
    lemma_last_part(base, file);
    let k = stem.len() as int;
    assert(file[k] == '.');
    assert forall|j: int| k < j < file.len() implies !dot()(#[trigger] file[j]) by {}
    lemma_is_last(file, dot(), k);
    assert(file.skip(k + 1) =~= seq!['t', 'x', 't']);
    assert(file.len() > 2);
}

/// A path that starts at the root is taken as it is, one that starts with `~/` goes on from the
/// home directory, and any other one from the directory the user works in. White space around it
/// does not count, and the ending of a text file is added where it is missing.
pub proof fn law_typed_path_is_found(
    input: Seq<char>,
    rest: Seq<char>,
    places: Places<Seq<char>>,
)
    ensures
        trimmed(input).len() == 0 ==> resolved(input, places) == Err::<
            Seq<char>,
            Error<Seq<char>>,
        >(Error::NoExportName),
        is_absolute_path(trimmed(input)) ==> resolved(input, places) == Ok::<
            Seq<char>,
            Error<Seq<char>>,
        >(with_text_extension(trimmed(input))),
        trimmed(input) == "~/"@ + rest && places.home is None ==> resolved(input, places) == Err::<
            Seq<char>,
            Error<Seq<char>>,
        >(Error::HomeUnknown),
        trimmed(input) == "~/"@ + rest && !is_absolute_path(rest) && places.home is Some
            && is_absolute_path(places.home->0) ==> resolved(input, places) == Ok::<
            Seq<char>,
            Error<Seq<char>>,
        >(with_text_extension(path_join(places.home->0, rest))),
        trimmed(input).len() > 0 && !is_absolute_path(trimmed(input)) && trimmed(input)[0] != '~'
            ==> match places.current {
            Ok(current) => resolved(input, places) == Ok::<Seq<char>, Error<Seq<char>>>(
                with_text_extension(path_join(current, trimmed(input))),
            ),
            Err(words) => resolved(input, places) == Err::<Seq<char>, Error<Seq<char>>>(
                Error::Outside(words),
            ),
        },
{
    let path = trimmed(input);
    reveal_strlit("~/");
    if path == "~/"@ + rest {
        assert(path.take(2) =~= "~/"@);
        assert("~/"@.is_prefix_of(path));
        assert(path.skip(2) =~= rest);
        assert(path[0] == '~');
    }
    if is_absolute_path(path) {
        assert(!"~/"@.is_prefix_of(path)) by {
            assert("~/"@[0] == '~');
        }
    }
    if path.len() > 0 && path[0] != '~' {
        assert(!"~/"@.is_prefix_of(path)) by {
            assert("~/"@[0] == '~');
        }
    }
}

/// A path ends like a text file when it is completed: one that does already stays, in capitals or
/// not, and any other one gets the ending behind what it has.
pub proof fn law_text_ending_is_added_once(path: Seq<char>)
    ensures
        ({
            let completed = with_text_extension(path);
            let extension = path_extension(path);
            &&& extension == Some(seq!['t', 'x', 't']) ==> completed == path
            &&& extension == Some(seq!['T', 'X', 'T']) ==> completed == path
            &&& extension is None ==> completed == path + ".txt"@
            &&& extension is Some && extension->0.len() != 3 ==> completed == path + ".txt"@
            &&& completed == path || completed == path + ".txt"@
            &&& completed == path ==> extension is Some && extension->0.len() == 3
        }),
{
    reveal_strlit(".txt");
    assert((path + ".txt"@).len() == path.len() + 4);
}

/// A file holds the whole text, and after it at most the end of its last line.
pub proof fn law_file_holds_the_text(text: Seq<char>)
    ensures
        ({
            let contents = file_contents(text);
            &&& text.is_prefix_of(contents)
            &&& contents.len() > 0
            &&& contents.last() == '\n'
            &&& contents.len() <= text.len() + 1
            &&& text.len() > 0 && text.last() == '\n' ==> contents == text
        }),
{
    reveal_strlit("\n");
    assert((text + "\n"@).take(text.len() as int) =~= text);
    assert(text.take(text.len() as int) =~= text);
}

/// A name of letters, numbers and hyphens is suggested as it is, in the directory the user works
/// in, or else at home. One with nothing to use in it becomes a plain one.
pub proof fn law_plain_name_is_suggested(name: Seq<char>, places: Places<Seq<char>>)
    requires
        forall|i: int|
            0 <= i < name.len() ==> (alphanumeric(#[trigger] name[i]) && name[i] != '_') || name[i]
                == '-',
    ensures
        ({
            let file = (if name.len() > 0 {
                name
            } else {
                "transcript"@
            }) + ".txt"@;
            &&& places.current matches Ok(current) ==> suggestion(name, places) == path_join(
                current,
                file,
            )
            &&& places.current is Err && places.home is Some ==> suggestion(name, places)
                == path_join(places.home->0, file)
        }),
{
    assert(file_chars(name) =~= name);
    assert(bare_start(name) == name);
    assert(bare_end(name) == name);
}

/// What may stand in a file name stays in a suggested one, and what may not becomes an underscore.
pub proof fn law_odd_characters_are_replaced(name: Seq<char>, i: int)
    requires
        0 <= i < name.len(),
    ensures
        file_chars(name).len() == name.len(),
        alphanumeric(name[i]) || name[i] == '-' || name[i] == '_' ==> file_chars(name)[i]
            == name[i],
        !alphanumeric(name[i]) && name[i] != '-' ==> file_chars(name)[i] == '_',
{
}

proof fn lemma_bare_edges(s: Seq<char>)
    ensures
        bare_start(s).len() > 0 ==> bare_start(s)[0] != '_',
        bare_end(s).len() > 0 ==> bare_end(s).last() != '_' && bare_end(s)[0] == s[0],
        bare_end(s).len() <= s.len(),
    decreases s.len(),
{
    if s.len() > 0 {
        lemma_bare_edges(s.drop_first());
        lemma_bare_edges(s.drop_last());
    }
}

/// A suggested file name begins and ends with something other than an underscore.
pub proof fn law_suggestion_has_clean_edges(name: Seq<char>)
    ensures
        file_stem(name).len() > 0,
        file_stem(name)[0] != '_',
        file_stem(name).last() != '_',
{
    let chars = file_chars(name);
    lemma_bare_edges(chars);
    lemma_bare_edges(bare_start(chars));
    reveal_strlit("transcript");
}

} // verus!
