//! Splitting a string around a separator byte, and lowercasing.

use std::borrow::Cow;
use vstd::prelude::*;

use crate::bytes::{
    find_first, find_last, first_index_of, last_index_of, lemma_ascii_byte_boundaries,
    lemma_encode_ascii_char, lemma_encode_utf8_concat, lemma_encode_utf8_injective,
    lemma_first_index_of, lemma_last_index_of, utf8_of,
};

verus! {

broadcast use vstd::utf8::group_utf8_lib, vstd::string::group_string_axioms;

/// The UTF-8 bytes of a string.
pub open spec fn utf8(s: &str) -> Seq<u8> {
    utf8_of(s@)
}

/// A separator the string can be cut at without splitting a character: an ASCII byte,
/// or one that does not occur at all.
pub open spec fn cuttable(input: &str, sep: u8) -> bool {
    sep < 0x80 || first_index_of(utf8(input), sep) is None
}

/// Strings whose encodings join around an ASCII byte join around that character.
proof fn lemma_reassemble(a: Seq<char>, sep: u8, b: Seq<char>, whole: Seq<char>)
    requires
        sep < 0x80,
        vstd::utf8::encode_utf8(a) + seq![sep] + vstd::utf8::encode_utf8(b)
            == vstd::utf8::encode_utf8(whole),
    ensures
        a + seq![sep as char] + b == whole,
{
    lemma_encode_ascii_char(sep);
    lemma_encode_utf8_concat(a, seq![sep as char]);
    lemma_encode_utf8_concat(a + seq![sep as char], b);
    lemma_encode_utf8_injective(a + seq![sep as char] + b, whole);
}

/// Splits `s` at a position holding the ASCII byte `s[k]`, dropping that byte.
fn split_around(input: &str, k: usize) -> (r: (&str, &str))
    requires
        k < utf8(input).len(),
        utf8(input)[k as int] < 0x80,
    ensures
        utf8(r.0) == utf8(input).subrange(0, k as int),
        utf8(r.1) == utf8(input).subrange(k + 1, utf8(input).len() as int),
{
    let ghost b = utf8(input);
    proof {
        lemma_ascii_byte_boundaries(b, k as int);
    }
    let (head, rest) = input.split_at(k);
    assert(utf8(rest) =~= b.subrange(k as int, b.len() as int));
    let (_, tail) = rest.split_at(1);
    assert(utf8(tail) =~= b.subrange(k + 1, b.len() as int));
    (head, tail)
}

/// Splits `input` at the first `sep`: the part before it and the part after it.
/// Without a `sep`, the whole input is the first part and the second is empty.
pub fn cut(input: &str, sep: u8) -> (r: (&str, &str))
    requires
        cuttable(input, sep),
    ensures
        match first_index_of(utf8(input), sep) {
            Some(i) => {
                &&& utf8(r.0) == utf8(input).subrange(0, i)
                &&& utf8(r.1) == utf8(input).subrange(i + 1, utf8(input).len() as int)
            },
            None => r.0@ == input@ && r.1@ == Seq::<char>::empty(),
        },
        // the parts reassemble the input, and the first part holds no separator
        first_index_of(utf8(input), sep) is Some ==> utf8(r.0) + seq![sep] + utf8(r.1) == utf8(
            input,
        ),
        first_index_of(utf8(input), sep) is Some ==> r.0@ + seq![sep as char] + r.1@ == input@,
        first_index_of(utf8(r.0), sep) is None,
{
    let bytes = input.as_bytes();
    match find_first(bytes, sep) {
        Some(k) => {
            proof {
                lemma_first_index_of(bytes@, sep);
            }
            let r = split_around(input, k);
            proof {
                let b = utf8(input);
                assert(utf8(r.0) + seq![sep] + utf8(r.1) =~= b);
                lemma_reassemble(r.0@, sep, r.1@, input@);
                lemma_first_index_of(utf8(r.0), sep);
                assert forall|j: int| 0 <= j < utf8(r.0).len() implies utf8(r.0)[j] != sep by {
                    assert(utf8(r.0)[j] == b[j]);
                }
            }
            r
        },
        None => {
            proof {
                reveal_strlit("");
                lemma_first_index_of(bytes@, sep);
            }
            (input, "")
        },
    }
}

/// Splits `input` at the last `sep`: the part before it and the part after it.
/// Without a `sep`, the first part is empty and the second is the whole input.
pub fn rcut(input: &str, sep: u8) -> (r: (&str, &str))
    requires
        cuttable(input, sep),
    ensures
        match last_index_of(utf8(input), sep) {
            Some(i) => {
                &&& utf8(r.0) == utf8(input).subrange(0, i)
                &&& utf8(r.1) == utf8(input).subrange(i + 1, utf8(input).len() as int)
            },
            None => r.0@ == Seq::<char>::empty() && r.1@ == input@,
        },
        // the parts reassemble the input, and the second part holds no separator
        last_index_of(utf8(input), sep) is Some ==> utf8(r.0) + seq![sep] + utf8(r.1) == utf8(
            input,
        ),
        last_index_of(utf8(input), sep) is Some ==> r.0@ + seq![sep as char] + r.1@ == input@,
        last_index_of(utf8(r.1), sep) is None,
{
    let bytes = input.as_bytes();
    proof {
        lemma_first_index_of(bytes@, sep);
        lemma_last_index_of(bytes@, sep);
    }
    match find_last(bytes, sep) {
        Some(k) => {
            let r = split_around(input, k);
            proof {
                let b = utf8(input);
                assert(utf8(r.0) + seq![sep] + utf8(r.1) =~= b);
                lemma_reassemble(r.0@, sep, r.1@, input@);
                lemma_last_index_of(utf8(r.1), sep);
                assert forall|j: int| 0 <= j < utf8(r.1).len() implies utf8(r.1)[j] != sep by {
                    assert(utf8(r.1)[j] == b[k + 1 + j]);
                }
            }
            r
        },
        None => {
            proof {
                reveal_strlit("");
            }
            ("", input)
        },
    }
}

/// What `char::is_uppercase` answers for `c` (the Unicode `Uppercase` property).
pub uninterp spec fn spec_is_uppercase(c: char) -> bool;

/// What `str::to_lowercase` returns for a string (Unicode lowercase mapping).
pub uninterp spec fn spec_str_to_lowercase(s: Seq<char>) -> Seq<char>;

/// Calls `char::is_uppercase`; its answer is named `spec_is_uppercase`, which depends on
/// the character alone.
#[verifier::external_body]
pub(crate) fn char_is_uppercase(c: char) -> (b: bool)
    ensures
        b == spec_is_uppercase(c),
{
    c.is_uppercase()
}

/// Calls `str::to_lowercase`; its result is named `spec_str_to_lowercase`, which depends
/// on the characters of the string alone.
#[verifier::external_body]
pub(crate) fn str_to_lowercase(s: &str) -> (r: String)
    ensures
        r@ == spec_str_to_lowercase(s@),
{
    s.to_lowercase()
}

/// Whether some character of `s` is uppercase.
pub open spec fn has_uppercase(s: Seq<char>) -> bool {
    exists|i: int| 0 <= i < s.len() && #[trigger] spec_is_uppercase(s[i])
}

/// What lowercasing gives: the string itself when nothing in it is uppercase, and its
/// Unicode lowercase mapping otherwise.
pub open spec fn lowercased(s: Seq<char>) -> Seq<char> {
    if has_uppercase(s) {
        spec_str_to_lowercase(s)
    } else {
        s
    }
}

/// Whether some character of `s` is uppercase.
pub(crate) fn any_uppercase(s: &str) -> (b: bool)
    ensures
        b == has_uppercase(s@),
{
    for c in it: s.chars()
        invariant
            it.seq() == s@,
            forall|j: int| 0 <= j < it.index() ==> !spec_is_uppercase(s@[j]),
    {
        if char_is_uppercase(c) {
            assert(spec_is_uppercase(s@[it.index() as int]));
            return true;
        }
    }
    false
}

/// Lowercases `s`, borrowing it unchanged when no character of it is uppercase.
pub fn to_lowercase<'a>(s: &'a str) -> (r: Cow<'a, str>)
    ensures
        r@ == lowercased(s@),
        !has_uppercase(s@) ==> (r matches Cow::Borrowed(b) && b == s),
        has_uppercase(s@) ==> r is Owned,
{
    if any_uppercase(s) {
        Cow::Owned(str_to_lowercase(s))
    } else {
        Cow::Borrowed(s)
    }
}

} // verus!
