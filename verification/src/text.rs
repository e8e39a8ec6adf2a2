//! Text helpers shared by the catalog and the request builder.

use vstd::prelude::*;
use vstd::string::StringExecFns;

verus! {

/// The ASCII lower-case form of one character: `'A'..='Z'` map to
/// `'a'..='z'`, every other character is unchanged.
pub open spec fn ascii_lower_char(c: char) -> char {
    if 'A' <= c && c <= 'Z' {
        ((c as u32) + 32) as char
    } else {
        c
    }
}

/// The ASCII lower-case form of a string, character by character.
pub open spec fn ascii_lower(s: Seq<char>) -> Seq<char> {
    Seq::new(s.len(), |i: int| ascii_lower_char(s[i]))
}

/// Lower-casing a string twice is lower-casing it once.
pub proof fn lemma_lower_twice(s: Seq<char>)
    ensures
        ascii_lower(ascii_lower(s)) == ascii_lower(s),
{
    assert forall|i: int| 0 <= i < s.len() implies ascii_lower_char(ascii_lower_char(s[i]))
        == ascii_lower_char(s[i]) by {
        let c = s[i];
        if 'A' <= c && c <= 'Z' {
            assert(ascii_lower_char(c) as u32 == (c as u32) + 32);
        }
    }
    assert(ascii_lower(ascii_lower(s)) =~= ascii_lower(s));
}

/// `str::to_ascii_lowercase`: a copy of the string in which each ASCII
/// upper-case letter is replaced by its lower-case form and every other
/// character is kept.
pub assume_specification[ str::to_ascii_lowercase ](s: &str) -> (r: String)
    ensures
        r@ == ascii_lower(s@),
;

/// `str == str`: true exactly when both hold the same characters.
pub assume_specification[ <str as PartialEq>::eq ](a: &str, b: &str) -> (r: bool)
    ensures
        r == (a@ == b@),
;

/// Whether a character counts as white space for trimming: the Unicode
/// property `White_Space`, as `char::is_whitespace` reports it.
pub uninterp spec fn white_space(c: char) -> bool;

/// A string without the longest prefix whose characters all meet `skip`.
pub open spec fn skip_leading(s: Seq<char>, skip: spec_fn(char) -> bool) -> Seq<char>
    decreases s.len(),
{
    if s.len() > 0 && skip(s.first()) {
        skip_leading(s.drop_first(), skip)
    } else {
        s
    }
}

/// A string without the longest suffix whose characters all meet `skip`.
pub open spec fn skip_trailing(s: Seq<char>, skip: spec_fn(char) -> bool) -> Seq<char>
    decreases s.len(),
{
    if s.len() > 0 && skip(s.last()) {
        skip_trailing(s.drop_last(), skip)
    } else {
        s
    }
}

/// A string without the characters at either end that meet `skip`.
pub open spec fn trimmed_of(s: Seq<char>, skip: spec_fn(char) -> bool) -> Seq<char> {
    skip_trailing(skip_leading(s, skip), skip)
}

/// A string without its leading and trailing white space.
pub open spec fn trimmed(s: Seq<char>) -> Seq<char> {
    trimmed_of(s, |c: char| white_space(c))
}

/// `str::trim`: the slice that is left when leading and trailing white
/// space, in the sense of the Unicode property `White_Space`, is removed.
pub assume_specification[ str::trim ](s: &str) -> (r: &str)
    ensures
        r@ == trimmed_of(s@, |c: char| white_space(c)),
;

/// A copy of `s` without its leading and trailing white space.
pub fn trim_owned(s: &str) -> (r: String)
    ensures
        r@ == trimmed(s@),
{
    s.trim().to_owned()
}

/// The contents of a sequence of strings, in the same order.
pub open spec fn texts(parts: Seq<String>) -> Seq<Seq<char>> {
    parts.map_values(|s: String| s@)
}

/// The contents of an optional string.
pub open spec fn text_of(s: Option<String>) -> Option<Seq<char>> {
    match s {
        Some(s) => Some(s@),
        None => None,
    }
}

/// The parts written one after another with `sep` between each two.
pub open spec fn joined(parts: Seq<Seq<char>>, sep: Seq<char>) -> Seq<char>
    decreases parts.len(),
{
    if parts.len() == 0 {
        Seq::empty()
    } else if parts.len() == 1 {
        parts[0]
    } else {
        joined(parts.drop_last(), sep) + sep + parts.last()
    }
}

/// Writes the parts one after another with `sep` between each two.
pub fn join(parts: &Vec<String>, sep: &str) -> (line: String)
    ensures
        line@ == joined(texts(parts@), sep@),
{
    let mut line = String::new();
    let ghost all = texts(parts@);
    for i in 0..parts.len()
        invariant
            all == texts(parts@),
            line@ == joined(all.take(i as int), sep@),
    {
        proof {
            assert(all.take(i + 1).drop_last() =~= all.take(i as int));
            assert(all.take(i + 1).last() == parts@[i as int]@);
        }
        if i > 0 {
            line.append(sep);
        }
        line.append(parts[i].as_str());
        proof {
            if i == 0 {
                assert(line@ =~= parts@[0]@);
            }
        }
    }
    assert(all.take(parts@.len() as int) =~= all);
    line
}

} // verus!
