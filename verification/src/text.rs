//! Small helpers on text: ASCII case folding and comparison of characters.

use vstd::prelude::*;
use vstd::std_specs::iter::IteratorSpec;

verus! {

/// The lower-case form of an ASCII capital; any other character unchanged.
pub open spec fn ascii_lower(c: char) -> char {
    if 'A' <= c && c <= 'Z' {
        ((c as u8) + 32) as char
    } else {
        c
    }
}

/// `text` with every ASCII capital replaced by its lower-case form.
pub open spec fn ascii_lowercase(text: Seq<char>) -> Seq<char> {
    Seq::new(text.len(), |i: int| ascii_lower(text[i]))
}

/// The lower-case form of an ASCII capital; any other character unchanged.
pub fn to_ascii_lower(c: char) -> (r: char)
    ensures
        r == ascii_lower(c),
{
    if c >= 'A' && c <= 'Z' {
        let b: u8 = c as u8;
        (b + 32) as char
    } else {
        c
    }
}

/// The characters of `input`.
pub fn chars_of(input: &str) -> (r: Vec<char>)
    ensures
        r@ == input@,
{
    broadcast use vstd::string::group_string_axioms;

    let mut out: Vec<char> = Vec::new();
    let mut iter = input.chars();
    loop
        invariant
            out@ + iter.remaining() == input@,
            iter.obeys_prophetic_iter_laws(),
            iter.decrease() is Some,
        ensures
            out@ == input@,
        decreases iter.decrease()->0,
    {
        let ghost before = iter.remaining();
        match iter.next() {
            Some(c) => {
                assert(out@.push(c) + before.drop_first() =~= out@ + before);
                out.push(c);
            },
            None => {
                assert(out@ + before =~= out@);
                break;
            },
        }
    }
    out
}

/// The characters of `input`, every ASCII capital in lower case.
pub fn to_ascii_lowercase(input: &str) -> (r: Vec<char>)
    ensures
        r@ == ascii_lowercase(input@),
{
    let mut chars = chars_of(input);
    let mut at: usize = 0;
    while at < chars.len()
        invariant
            at <= chars@.len(),
            chars@.len() == input@.len(),
            forall|k: int| 0 <= k < at ==> chars@[k] == ascii_lower(input@[k]),
            forall|k: int| at <= k < chars@.len() ==> chars@[k] == input@[k],
        decreases chars@.len() - at,
    {
        let lowered = to_ascii_lower(chars[at]);
        chars.set(at, lowered);
        at += 1;
    }
    assert(chars@ =~= ascii_lowercase(input@));
    chars
}

/// Whether two vectors hold the same characters.
pub fn same_chars(a: &Vec<char>, b: &Vec<char>) -> (r: bool)
    ensures
        r == (a@ == b@),
{
    if a.len() != b.len() {
        return false;
    }
    let mut at: usize = 0;
    while at < a.len()
        invariant
            at <= a@.len(),
            a@.len() == b@.len(),
            forall|k: int| 0 <= k < at ==> a@[k] == b@[k],
        decreases a@.len() - at,
    {
        if a[at] != b[at] {
            return false;
        }
        at += 1;
    }
    assert(a@ =~= b@);
    true
}

/// Whether two strings hold the same characters.
pub fn same_text(a: &str, b: &str) -> (r: bool)
    ensures
        r == (a@ == b@),
{
    a.to_owned() == b.to_owned()
}

} // verus!
