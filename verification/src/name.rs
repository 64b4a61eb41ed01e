//! The rules that a new pattern's name has to meet before anything is
//! written. The name becomes a file name, so nothing that could lead out of
//! the patterns directory is let through.

use vstd::prelude::*;

use crate::error::PatternError;
use crate::text::chars_of;

verus! {

/// The longest name that is accepted, in characters.
pub const MAX_NAME_LEN: usize = 100;

/// Whether the standard library counts `c` as a letter or a number.
pub uninterp spec fn unicode_alphanumeric(c: char) -> bool;

/// Calls `char::is_alphanumeric`. Nothing is claimed of the result but that
/// it is determined by `c`: `unicode_alphanumeric` gives it a name.
#[verifier::external_body]
fn is_alphanumeric(c: char) -> (r: bool)
    ensures
        r == unicode_alphanumeric(c),
{
    c.is_alphanumeric()
}

/// The letters and digits of ASCII.
pub open spec fn is_ascii_alphanumeric(c: char) -> bool {
    ||| 'a' <= c <= 'z'
    ||| 'A' <= c <= 'Z'
    ||| '0' <= c <= '9'
}

/// The characters a name may hold: letters, digits, `-` and `_`. Within
/// ASCII the letters and digits are spelled out here; beyond it the
/// standard library's tables decide what a letter or a number is.
pub open spec fn is_name_char(c: char) -> bool {
    if c <= '\u{7f}' {
        is_ascii_alphanumeric(c) || c == '-' || c == '_'
    } else {
        unicode_alphanumeric(c)
    }
}

/// The length rule: between one character and `MAX_NAME_LEN`.
pub open spec fn name_length_ok(name: Seq<char>) -> bool {
    1 <= name.len() <= MAX_NAME_LEN
}

/// The character rule: every character may stand in a name.
pub open spec fn name_chars_ok(name: Seq<char>) -> bool {
    forall|i: int| 0 <= i < name.len() ==> is_name_char(#[trigger] name[i])
}

/// Both rules.
pub open spec fn valid_name(name: Seq<char>) -> bool {
    name_length_ok(name) && name_chars_ok(name)
}

/// Whether `c` may stand in a name.
pub fn name_char(c: char) -> (r: bool)
    ensures
        r == is_name_char(c),
{
    if c <= '\u{7f}' {
        ('a' <= c && c <= 'z') || ('A' <= c && c <= 'Z') || ('0' <= c && c <= '9') || c == '-'
            || c == '_'
    } else {
        is_alphanumeric(c)
    }
}

/// What is decided of a proposed name. The length is looked at first, so
/// a name that breaks both rules is reported for its length.
pub open spec fn name_verdict(name: Seq<char>) -> Result<(), PatternError> {
    if !name_length_ok(name) {
        Err(PatternError::NameLength)
    } else if !name_chars_ok(name) {
        Err(PatternError::NameCharacters)
    } else {
        Ok(())
    }
}

/// Accepts or rejects a proposed name, and says which rule it broke.
pub fn validate_pattern_name(name: &str) -> (r: Result<(), PatternError>)
    ensures
        r == name_verdict(name@),
        r is Ok <==> valid_name(name@),
{
    let chars = chars_of(name);
    let n = chars.len();
    if n == 0 || n > MAX_NAME_LEN {
        return Err(PatternError::NameLength);
    }
    let mut i: usize = 0;
    while i < n
        invariant
            i <= n,
            n == chars@.len(),
            chars@ == name@,
            name_length_ok(name@),
            forall|j: int| 0 <= j < i ==> is_name_char(#[trigger] chars@[j]),
        decreases n - i,
    {
        if !name_char(chars[i]) {
            return Err(PatternError::NameCharacters);
        }
        i += 1;
    }
    Ok(())
}

/// Where the rules draw the line: the empty name and every name of more
/// than `MAX_NAME_LEN` characters are rejected, whatever they hold; a name
/// of one to `MAX_NAME_LEN` ASCII letters, digits, dashes and underscores is
/// accepted; a name that holds a slash or a space is rejected, whatever its
/// length.
pub proof fn lemma_name_boundaries(name: Seq<char>)
    ensures
        name.len() == 0 ==> !valid_name(name),
        name.len() > MAX_NAME_LEN ==> !valid_name(name),
        1 <= name.len() <= MAX_NAME_LEN && (forall|i: int|
            0 <= i < name.len() ==> is_ascii_alphanumeric(#[trigger] name[i]) || name[i] == '-'
                || name[i] == '_') ==> valid_name(name),
        name.contains('/') || name.contains(' ') ==> !valid_name(name),
{
    if name.contains('/') {
        let i = choose|i: int| 0 <= i < name.len() && name[i] == '/';
        assert(!is_name_char(name[i]));
    }
    if name.contains(' ') {
        let i = choose|i: int| 0 <= i < name.len() && name[i] == ' ';
        assert(!is_name_char(name[i]));
    }
}

/// A name that is accepted holds no character that separates path
/// components, no dot and no whitespace: as a file name it stays inside the
/// directory it is joined to.
pub proof fn lemma_valid_name_is_plain(name: Seq<char>, i: int)
    requires
        valid_name(name),
        0 <= i < name.len(),
    ensures
        name[i] != '/',
        name[i] != '\\',
        name[i] != '.',
        name[i] != '\n',
        name[i] != ' ',
        name[i] != '\0',
{
    assert(is_name_char(name[i]));
}

} // verus!
