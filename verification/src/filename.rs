//! File names that are safe to propose in a save dialog.

use crate::std_text::{is_control_char, is_whitespace_char};
use vstd::prelude::*;

verus! {

/// The characters that file systems reserve: `< > : " | ? * \ /`.
pub open spec fn is_reserved_char(c: char) -> bool {
    c == '<' || c == '>' || c == ':' || c == '"' || c == '|' || c == '?' || c == '*' || c == '\\'
        || c == '/'
}

/// What stands for `c` in a file name: an underscore for a reserved and for a
/// control character, `c` itself otherwise.
pub open spec fn safe_char(c: char) -> char {
    if is_reserved_char(c) || is_control_char(c) {
        '_'
    } else {
        c
    }
}

/// Number of white-space characters before the first other character of `s`.
pub open spec fn leading_blanks(s: Seq<char>) -> nat
    decreases s.len(),
{
    if s.len() > 0 && is_whitespace_char(s.first()) {
        1 + leading_blanks(s.drop_first())
    } else {
        0
    }
}

/// Number of white-space characters after the last other character of `s`.
pub open spec fn trailing_blanks(s: Seq<char>) -> nat
    decreases s.len(),
{
    if s.len() > 0 && is_whitespace_char(s.last()) {
        1 + trailing_blanks(s.drop_last())
    } else {
        0
    }
}

/// `s` without the white space at its start and at its end.
pub open spec fn trimmed(s: Seq<char>) -> Seq<char> {
    if leading_blanks(s) == s.len() {
        Seq::empty()
    } else {
        s.subrange(leading_blanks(s) as int, s.len() - trailing_blanks(s))
    }
}

/// What [`sanitize_filename`] returns for the characters `s`: each replaced
/// by its safe stand-in, and the whole trimmed then.
pub open spec fn sanitized(s: Seq<char>) -> Seq<char> {
    trimmed(s.map_values(|c: char| safe_char(c)))
}

/// Whether `c` is reserved by file systems.
fn is_reserved(c: char) -> (reserved: bool)
    ensures
        reserved == is_reserved_char(c),
{
    c == '<' || c == '>' || c == ':' || c == '"' || c == '|' || c == '?' || c == '*' || c == '\\'
        || c == '/'
}

/// Counts the white space at the start of `chars`.
fn count_leading_blanks(chars: &Vec<char>) -> (count: usize)
    ensures
        count == leading_blanks(chars@),
        count <= chars@.len(),
{
    let mut start: usize = 0;
    assert(chars@.subrange(0, chars@.len() as int) == chars@);
    while start < chars.len() && chars[start].is_whitespace()
        invariant
            start <= chars@.len(),
            leading_blanks(chars@) == start + leading_blanks(
                chars@.subrange(start as int, chars@.len() as int),
            ),
        decreases chars@.len() - start,
    {
        proof {
            let rest = chars@.subrange(start as int, chars@.len() as int);
            assert(rest.first() == chars@[start as int]);
            assert(rest.drop_first() == chars@.subrange(start + 1, chars@.len() as int));
        }
        start += 1;
    }
    proof {
        let rest = chars@.subrange(start as int, chars@.len() as int);
        if start < chars@.len() {
            assert(rest.first() == chars@[start as int]);
        }
    }
    start
}

/// Counts the white space at the end of `chars`.
fn count_trailing_blanks(chars: &Vec<char>) -> (count: usize)
    ensures
        count == trailing_blanks(chars@),
        count <= chars@.len(),
{
    let mut end: usize = chars.len();
    assert(chars@.subrange(0, chars@.len() as int) == chars@);
    while end > 0 && chars[end - 1].is_whitespace()
        invariant
            end <= chars@.len(),
            trailing_blanks(chars@) == (chars@.len() - end) + trailing_blanks(
                chars@.subrange(0, end as int),
            ),
        decreases end,
    {
        proof {
            let rest = chars@.subrange(0, end as int);
            assert(rest.last() == chars@[end - 1]);
            assert(rest.drop_last() == chars@.subrange(0, end - 1));
        }
        end -= 1;
    }
    proof {
        let rest = chars@.subrange(0, end as int);
        if end > 0 {
            assert(rest.last() == chars@[end - 1]);
        }
    }
    chars.len() - end
}

/// The leading white space is white space, and what follows it is not.
pub proof fn lemma_leading_blanks(s: Seq<char>)
    ensures
        leading_blanks(s) <= s.len(),
        forall|i: int| 0 <= i < leading_blanks(s) ==> is_whitespace_char(#[trigger] s[i]),
        leading_blanks(s) < s.len() ==> !is_whitespace_char(s[leading_blanks(s) as int]),
    decreases s.len(),
{
    if s.len() > 0 && is_whitespace_char(s.first()) {
        let rest = s.drop_first();
        lemma_leading_blanks(rest);
        assert forall|i: int| 0 <= i < leading_blanks(s) implies is_whitespace_char(
            #[trigger] s[i],
        ) by {
            if i > 0 {
                assert(s[i] == rest[i - 1]);
            }
        }
        if leading_blanks(s) < s.len() {
            assert(s[leading_blanks(s) as int] == rest[leading_blanks(rest) as int]);
        }
    }
}

/// The trailing white space is white space, and what precedes it is not.
pub proof fn lemma_trailing_blanks(s: Seq<char>)
    ensures
        trailing_blanks(s) <= s.len(),
        forall|i: int|
            s.len() - trailing_blanks(s) <= i < s.len() ==> is_whitespace_char(#[trigger] s[i]),
        trailing_blanks(s) < s.len() ==> !is_whitespace_char(
            s[s.len() - 1 - trailing_blanks(s)],
        ),
    decreases s.len(),
{
    if s.len() > 0 && is_whitespace_char(s.last()) {
        let rest = s.drop_last();
        lemma_trailing_blanks(rest);
        assert forall|i: int|
            s.len() - trailing_blanks(s) <= i < s.len() implies is_whitespace_char(
            #[trigger] s[i],
        ) by {
            if i < s.len() - 1 {
                assert(s[i] == rest[i]);
            }
        }
        if trailing_blanks(s) < s.len() {
            assert(s[s.len() - 1 - trailing_blanks(s)] == rest[rest.len() - 1 - trailing_blanks(
                rest,
            )]);
        }
    }
}

/// Where a sequence is not all white space, the white space at its start and
/// the white space at its end do not meet.
pub proof fn lemma_blanks_leave_room(s: Seq<char>)
    requires
        leading_blanks(s) < s.len(),
    ensures
        leading_blanks(s) + trailing_blanks(s) < s.len(),
{
    lemma_leading_blanks(s);
    lemma_trailing_blanks(s);
    let first_kept = leading_blanks(s) as int;
    if s.len() - trailing_blanks(s) <= first_kept {
        assert(is_whitespace_char(s[first_kept]));
    }
}

/// A sanitized name is no longer than what it was made of, holds no reserved
/// and no control character, and neither begins nor ends with white space.
pub proof fn lemma_sanitized_is_safe(s: Seq<char>)
    ensures
        sanitized(s).len() <= s.len(),
        forall|i: int|
            0 <= i < sanitized(s).len() ==> !is_reserved_char(#[trigger] sanitized(s)[i])
                && !is_control_char(sanitized(s)[i]),
        sanitized(s).len() > 0 ==> !is_whitespace_char(sanitized(s).first())
            && !is_whitespace_char(sanitized(s).last()),
{
    let replaced = s.map_values(|c: char| safe_char(c));
    lemma_leading_blanks(replaced);
    lemma_trailing_blanks(replaced);
    if leading_blanks(replaced) < replaced.len() {
        lemma_blanks_leave_room(replaced);
    }
    let name = sanitized(s);
    assert forall|i: int| 0 <= i < name.len() implies !is_reserved_char(#[trigger] name[i])
        && !is_control_char(name[i]) by {
        let at = leading_blanks(replaced) + i;
        assert(name[i] == replaced[at]);
        assert(replaced[at] == safe_char(s[at]));
    }
}

/// Sanitizing a sanitized name changes nothing.
pub proof fn lemma_sanitized_twice(s: Seq<char>)
    ensures
        sanitized(sanitized(s)) == sanitized(s),
{
    let name = sanitized(s);
    lemma_sanitized_is_safe(s);
    let again = name.map_values(|c: char| safe_char(c));
    assert(again =~= name);
    if name.len() > 0 {
        assert(leading_blanks(name) == 0);
        assert(trailing_blanks(name) == 0);
        assert(name.subrange(0, name.len() as int) =~= name);
    } else {
        assert(trimmed(name) =~= name);
    }
}

/// Makes a file name of `filename`: every character that file systems
/// reserve (`< > : " | ? * \ /`) and every control character becomes an
/// underscore, and white space at either end is dropped.
///
/// The name that comes out is no longer than `filename`, holds no reserved
/// and no control character, and neither begins nor ends with white space.
pub fn sanitize_filename(filename: &str) -> (name: String)
    ensures
        name@ == sanitized(filename@),
        name@.len() <= filename@.len(),
        forall|i: int|
            0 <= i < name@.len() ==> !is_reserved_char(#[trigger] name@[i]) && !is_control_char(
                name@[i],
            ),
        name@.len() > 0 ==> !is_whitespace_char(name@.first()) && !is_whitespace_char(
            name@.last(),
        ),
{
    proof {
        lemma_sanitized_is_safe(filename@);
    }
    broadcast use vstd::string::axiom_spec_iter;

    let ghost replaced = filename@.map_values(|c: char| safe_char(c));
    let mut chars: Vec<char> = Vec::new();
    for c in it: filename.chars()
        invariant
            it.seq() == filename@,
            replaced == filename@.map_values(|c: char| safe_char(c)),
            chars@ == replaced.take(it.index()),
    {
        assert(c == filename@[it.index()]);
        assert(replaced[it.index()] == safe_char(c));
        assert(replaced.take(it.index() + 1) == replaced.take(it.index()).push(safe_char(c)));
        if is_reserved(c) || c.is_control() {
            chars.push('_');
        } else {
            chars.push(c);
        }
    }
    assert(chars@ == replaced) by {
        assert(replaced.take(replaced.len() as int) == replaced);
    }
    let start = count_leading_blanks(&chars);
    let mut name = String::new();
    if start == chars.len() {
        return name;
    }
    let end = chars.len() - count_trailing_blanks(&chars);
    proof {
        lemma_blanks_leave_room(chars@);
    }
    let mut at: usize = start;
    while at < end
        invariant
            start <= at <= end <= chars@.len(),
            name@ == chars@.subrange(start as int, at as int),
        decreases end - at,
    {
        assert(chars@.subrange(start as int, at + 1) == chars@.subrange(
            start as int,
            at as int,
        ).push(chars@[at as int]));
        name.push(chars[at]);
        at += 1;
    }
    name
}

} // verus!
