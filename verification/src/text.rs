//! Text: the character classes and the few string operations that the other modules share.
use crate::search::{lemma_filter_none, lemma_filter_step};
use vstd::prelude::*;
use vstd::utf8::encode_utf8;

verus! {

/// Whether a character is white space: those with the property `White_Space` of Unicode.
pub open spec fn whitespace(c: char) -> bool {
    let n = c as int;
    ||| 0x9 <= n <= 0xD
    ||| n == 0x20
    ||| n == 0x85
    ||| n == 0xA0
    ||| n == 0x1680
    ||| 0x2000 <= n <= 0x200A
    ||| n == 0x2028
    ||| n == 0x2029
    ||| n == 0x202F
    ||| n == 0x205F
    ||| n == 0x3000
}

/// Whether a character is a control character: those of the category `Cc` of Unicode.
pub open spec fn control(c: char) -> bool {
    c as int <= 0x1F || 0x7F <= c as int <= 0x9F
}

/// What `char::is_alphanumeric` answers for a character beyond ASCII that is no control character.
pub uninterp spec fn wide_alphanumeric(c: char) -> bool;

/// Whether a character is one of the letters and digits of ASCII.
pub open spec fn ascii_alphanumeric(c: char) -> bool {
    '0' <= c <= '9' || 'A' <= c <= 'Z' || 'a' <= c <= 'z'
}

/// Whether a character is a letter or a number.
pub open spec fn alphanumeric(c: char) -> bool {
    if c as int <= 0x7F {
        ascii_alphanumeric(c)
    } else {
        !control(c) && wide_alphanumeric(c)
    }
}

/// `char::is_whitespace`: whether the character has the property `White_Space`.
pub assume_specification[ char::is_whitespace ](c: char) -> (answer: bool)
    ensures
        answer == whitespace(c),
;

/// `char::is_control`: whether the character is of the category `Cc`.
pub assume_specification[ char::is_control ](c: char) -> (answer: bool)
    ensures
        answer == control(c),
;

/// `char::is_alphanumeric`: within ASCII, whether the character is a letter or a digit. A control
/// character is neither. For the others the answer rests on the character alone; what it is there
/// is left unsaid.
pub assume_specification[ char::is_alphanumeric ](c: char) -> (answer: bool)
    ensures
        c as int <= 0x7F ==> answer == ascii_alphanumeric(c),
        control(c) ==> !answer,
        c as int > 0x7F && !control(c) ==> answer == wide_alphanumeric(c),
;

/// `String::push`: the character goes to the end.
pub assume_specification[ String::push ](s: &mut String, c: char)
    ensures
        final(s)@ == old(s)@.push(c),
;

/// `String::pop`: the last character leaves, if there is one.
pub assume_specification[ String::pop ](s: &mut String) -> (last: Option<char>)
    ensures
        old(s)@.len() == 0 ==> last is None && final(s)@ == old(s)@,
        old(s)@.len() > 0 ==> last == Some(old(s)@.last()) && final(s)@ == old(s)@.drop_last(),
;

/// `String::clear`: nothing is left.
pub assume_specification[ String::clear ](s: &mut String)
    ensures
        final(s)@ == Seq::<char>::empty(),
;

/// The text from its first character on that is no white space.
pub open spec fn trimmed_start(s: Seq<char>) -> Seq<char>
    decreases s.len(),
{
    if s.len() > 0 && whitespace(s[0]) {
        trimmed_start(s.drop_first())
    } else {
        s
    }
}

/// The text up to its last character that is no white space.
pub open spec fn trimmed_end(s: Seq<char>) -> Seq<char>
    decreases s.len(),
{
    if s.len() > 0 && whitespace(s.last()) {
        trimmed_end(s.drop_last())
    } else {
        s
    }
}

/// The text without white space at either end.
pub open spec fn trimmed(s: Seq<char>) -> Seq<char> {
    trimmed_end(trimmed_start(s))
}

/// What is left of a text begins with no white space.
proof fn lemma_trimmed_start(s: Seq<char>)
    ensures
        trimmed_start(s).len() > 0 ==> !whitespace(trimmed_start(s)[0]),
    decreases s.len(),
{
    if s.len() > 0 && whitespace(s[0]) {
        lemma_trimmed_start(s.drop_first());
    }
}

/// What is left of a text begins as the text does, and ends with no white space.
proof fn lemma_trimmed_end(s: Seq<char>)
    ensures
        trimmed_end(s).len() <= s.len(),
        trimmed_end(s).len() > 0 ==> trimmed_end(s)[0] == s[0] && !whitespace(
            trimmed_end(s).last(),
        ),
    decreases s.len(),
{
    if s.len() > 0 && whitespace(s.last()) {
        lemma_trimmed_end(s.drop_last());
    }
}

/// A text with no white space at either end stays as it is.
pub proof fn lemma_bare_is_trimmed(s: Seq<char>)
    requires
        s.len() > 0 ==> !whitespace(s[0]) && !whitespace(s.last()),
    ensures
        trimmed(s) == s,
{
}

/// What was trimmed stays as it is.
pub proof fn lemma_trimmed_twice(s: Seq<char>)
    ensures
        trimmed(trimmed(s)) == trimmed(s),
{
    lemma_trimmed_start(s);
    lemma_trimmed_end(trimmed_start(s));
    lemma_bare_is_trimmed(trimmed(s));
}

/// `str::trim`: leading and trailing white space is left out.
pub assume_specification[ str::trim ](s: &str) -> (t: &str)
    ensures
        t@ == trimmed(s@),
;

/// `str::trim_end`: trailing white space is left out.
pub assume_specification[ str::trim_end ](s: &str) -> (t: &str)
    ensures
        t@ == trimmed_end(s@),
;

/// The pieces one after another, with a separator between neighbours.
pub open spec fn joined(pieces: Seq<Seq<char>>, separator: Seq<char>) -> Seq<char>
    decreases pieces.len(),
{
    if pieces.len() == 0 {
        Seq::empty()
    } else if pieces.len() == 1 {
        pieces[0]
    } else {
        joined(pieces.drop_last(), separator) + separator + pieces.last()
    }
}

/// The pieces that hold at least one character, in their order.
pub open spec fn non_empty(pieces: Seq<Seq<char>>) -> Seq<Seq<char>> {
    pieces.filter(|piece: Seq<char>| piece.len() > 0)
}

/// The digit that stands for a number below ten.
pub open spec fn digit(n: nat) -> char {
    if n == 0 {
        '0'
    } else if n == 1 {
        '1'
    } else if n == 2 {
        '2'
    } else if n == 3 {
        '3'
    } else if n == 4 {
        '4'
    } else if n == 5 {
        '5'
    } else if n == 6 {
        '6'
    } else if n == 7 {
        '7'
    } else if n == 8 {
        '8'
    } else {
        '9'
    }
}

/// A number in decimal notation.
pub open spec fn decimal_digits(n: nat) -> Seq<char>
    decreases n,
{
    if n < 10 {
        seq![digit(n)]
    } else {
        decimal_digits(n / 10).push(digit(n % 10))
    }
}

/// A number in decimal notation, with a zero in front where it has one digit only.
pub open spec fn two_digits(n: nat) -> Seq<char> {
    if n < 10 {
        seq!['0', digit(n)]
    } else {
        decimal_digits(n)
    }
}

fn digit_char(n: u8) -> (c: char)
    requires
        n < 10,
    ensures
        c == digit(n as nat),
{
    match n {
        0 => '0',
        1 => '1',
        2 => '2',
        3 => '3',
        4 => '4',
        5 => '5',
        6 => '6',
        7 => '7',
        8 => '8',
        _ => '9',
    }
}

/// Writes a number in decimal notation.
pub fn decimal(n: u128) -> (s: String)
    ensures
        s@ == decimal_digits(n as nat),
    decreases n,
{
    let last: u8 = (n % 10) as u8;
    let mut s = if n < 10 {
        String::new()
    } else {
        decimal(n / 10)
    };
    s.push(digit_char(last));
    proof {
        if n < 10 {
            assert(s@ =~= seq![digit(n as nat)]);
        }
    }
    s
}

/// Writes a number with two digits at least.
pub fn padded(n: u128) -> (s: String)
    ensures
        s@ == two_digits(n as nat),
{
    let digits = decimal(n);
    if n < 10 {
        let mut s = String::new();
        s.push('0');
        s.append(digits.as_str());
        proof {
            assert(s@ =~= seq!['0', digit(n as nat)]);
        }
        s
    } else {
        digits
    }
}

/// Whether two texts are the same.
pub fn same(a: &str, b: &str) -> (answer: bool)
    ensures
        answer == (a@ == b@),
{
    a.to_owned() == b.to_owned()
}

/// Whether a text begins with another.
pub fn starts_with(s: &str, prefix: &str) -> (answer: bool)
    ensures
        answer == prefix@.is_prefix_of(s@),
{
    let n: usize = prefix.unicode_len();
    if s.unicode_len() < n {
        return false;
    }
    let head = s.substring_char(0, n);
    proof {
        assert(s@.subrange(0, n as int) =~= s@.take(n as int));
    }
    same(head, prefix)
}

/// Whether the pieces hold a text.
pub fn contains_text(pieces: &Vec<String>, text: &str) -> (answer: bool)
    ensures
        answer == pieces.deep_view().contains(text@),
{
    let mut i: usize = 0;
    while i < pieces.len()
        invariant
            i <= pieces.len(),
            forall|j: int| 0 <= j < i ==> pieces[j]@ != text@,
        decreases pieces.len() - i,
    {
        if same(pieces[i].as_str(), text) {
            proof {
                assert(pieces.deep_view()[i as int] == text@);
            }
            return true;
        }
        i += 1;
    }
    proof {
        assert forall|j: int| 0 <= j < pieces.deep_view().len() implies pieces.deep_view()[j]
            != text@ by {}
    }
    false
}

/// A copy of a list of texts.
pub fn copied(pieces: &Vec<String>) -> (copy: Vec<String>)
    ensures
        copy.deep_view() == pieces.deep_view(),
{
    let mut copy: Vec<String> = Vec::new();
    let mut i: usize = 0;
    while i < pieces.len()
        invariant
            i <= pieces.len(),
            copy.len() == i,
            forall|j: int| 0 <= j < i ==> copy[j]@ == pieces[j]@,
        decreases pieces.len() - i,
    {
        copy.push(pieces[i].clone());
        i += 1;
    }
    proof {
        assert(copy.deep_view() =~= pieces.deep_view());
    }
    copy
}

/// A copy of a text that may be missing.
pub fn copied_option(text: &Option<String>) -> (copy: Option<String>)
    ensures
        copy.deep_view() == text.deep_view(),
{
    match text {
        Some(t) => Some(t.clone()),
        None => None,
    }
}

/// How many bytes a text takes.
pub open spec fn byte_len(s: Seq<char>) -> usize {
    encode_utf8(s).len() as usize
}

/// Whether a character can be shown, as a filter.
pub open spec fn printable() -> spec_fn(char) -> bool {
    |c: char| !control(c)
}

/// The characters of a text that can be shown.
pub open spec fn visible(s: Seq<char>) -> Seq<char> {
    s.filter(printable())
}

/// The beginning of a text, of so many characters at most.
pub open spec fn head_of(s: Seq<char>, most: int) -> Seq<char> {
    if s.len() <= most {
        s
    } else {
        s.take(most)
    }
}

/// Appends the characters of a text that can be shown, but no more than so many.
pub fn append_visible(to: &mut String, text: &str, room: usize)
    ensures
        final(to)@ == old(to)@ + head_of(visible(text@), room as int),
{
    let ghost start = to@;
    let ghost all = text@;
    let mut left: usize = room;
    proof {
        lemma_filter_none(all.take(0), printable());
        assert(to@ =~= start + visible(all.take(0)));
    }
    for c in it: text.chars()
        invariant
            it.seq() == all,
            text@ == all,
            start == old(to)@,
            left <= room,
            visible(all.take(it.index())).len() + left == room,
            to@ == start + visible(all.take(it.index())),
    {
        proof {
            lemma_filter_step(all, it.index(), printable());
        }
        if !c.is_control() {
            if left == 0 {
                proof {
                    lemma_filter_prefix(all, it.index(), printable());
                    lemma_filter_prefix(all, it.index() + 1, printable());
                }
                return ;
            }
            to.push(c);
            left -= 1;
            proof {
                assert(to@ =~= start + visible(all.take(it.index() + 1)));
            }
        }
    }
    proof {
        assert(all.take(all.len() as int) =~= all);
    }
}

/// A filter of a beginning gives a beginning of the filter.
proof fn lemma_filter_prefix<A>(s: Seq<A>, n: int, keep: spec_fn(A) -> bool)
    requires
        0 <= n <= s.len(),
    ensures
        s.take(n).filter(keep).len() <= s.filter(keep).len(),
        s.take(n).filter(keep) == s.filter(keep).take(s.take(n).filter(keep).len() as int),
    decreases s.len() - n,
{
    if n < s.len() {
        lemma_filter_prefix(s, n + 1, keep);
        lemma_filter_step(s, n, keep);
        let all = s.filter(keep);
        let here = s.take(n).filter(keep);
        let next = s.take(n + 1).filter(keep);
        assert(here =~= next.take(here.len() as int));
        assert(next.take(here.len() as int) =~= all.take(here.len() as int));
    } else {
        assert(s.take(n) =~= s);
        assert(s.filter(keep).take(s.filter(keep).len() as int) =~= s.filter(keep));
    }
}

/// How many words a text has: white space parts them.
pub open spec fn word_count(s: Seq<char>) -> nat
    decreases s.len(),
{
    if s.len() == 0 {
        0
    } else {
        let before = word_count(s.drop_last());
        if !whitespace(s.last()) && (s.len() == 1 || whitespace(s[s.len() - 2])) {
            before + 1
        } else {
            before
        }
    }
}

proof fn lemma_word_count(s: Seq<char>)
    ensures
        word_count(s) <= s.len(),
    decreases s.len(),
{
    if s.len() > 0 {
        lemma_word_count(s.drop_last());
    }
}

/// How many words a text has.
pub fn words_in(text: &str) -> (count: usize)
    ensures
        count == word_count(text@),
{
    let length: usize = text.unicode_len();
    let mut count: usize = 0;
    let mut apart = true;
    let ghost all = text@;
    for c in it: text.chars()
        invariant
            it.seq() == all,
            text@ == all,
            all.len() == length,
            count == word_count(all.take(it.index())),
            apart == (it.index() == 0 || whitespace(all[it.index() - 1])),
    {
        proof {
            let next = all.take(it.index() + 1);
            assert(next.drop_last() =~= all.take(it.index()));
            lemma_word_count(all.take(it.index()));
        }
        if c.is_whitespace() {
            apart = true;
        } else {
            if apart {
                count += 1;
            }
            apart = false;
        }
    }
    proof {
        assert(all.take(all.len() as int) =~= all);
    }
    count
}

/// Whether a text stands in another one at a place.
pub open spec fn stands_at(s: Seq<char>, part: Seq<char>, i: int) -> bool {
    0 <= i && i + part.len() <= s.len() && s.subrange(i, i + part.len()) == part
}

/// The first place from some place on where a text stands in another one.
pub open spec fn occurrence(s: Seq<char>, part: Seq<char>, from: int) -> Option<int>
    decreases s.len() - from + 1,
{
    if from + part.len() > s.len() {
        None
    } else if stands_at(s, part, from) {
        Some(from)
    } else {
        occurrence(s, part, from + 1)
    }
}

/// The first place where a text stands in another one, counted in characters.
pub fn find(s: &str, part: &str) -> (place: Option<usize>)
    ensures
        crate::search::place(place) == occurrence(s@, part@, 0),
{
    let length: usize = s.unicode_len();
    let size: usize = part.unicode_len();
    let mut i: usize = 0;
    while size <= length - i
        invariant
            length == s@.len(),
            size == part@.len(),
            i <= length,
            occurrence(s@, part@, 0) == occurrence(s@, part@, i as int),
        decreases length - i,
    {
        if same(s.substring_char(i, i + size), part) {
            return Some(i);
        }
        proof {
            if size == 0 {
                assert(s@.subrange(i as int, i as int) =~= part@);
            }
        }
        i += 1;
    }
    None
}

/// The pieces one after another, with a separator between neighbours.
pub fn join_pieces(pieces: &Vec<String>, separator: &str) -> (text: String)
    ensures
        text@ == joined(pieces.deep_view(), separator@),
{
    let mut text = String::new();
    let ghost all = pieces.deep_view();
    let mut i: usize = 0;
    while i < pieces.len()
        invariant
            i <= pieces.len(),
            all == pieces.deep_view(),
            text@ == joined(all.take(i as int), separator@),
        decreases pieces.len() - i,
    {
        proof {
            let next = all.take(i + 1);
            assert(next.drop_last() =~= all.take(i as int));
            assert(next.last() == pieces[i as int]@);
            if i == 0 {
                assert(Seq::<char>::empty() + pieces[0]@ =~= pieces[0]@);
            }
        }
        if i > 0 {
            text.append(separator);
        }
        text.append(pieces[i].as_str());
        i += 1;
    }
    proof {
        assert(all.take(i as int) =~= all);
    }
    text
}

} // verus!
