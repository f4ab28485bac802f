//! The textual format of record identifiers: the standard hyphenated UUID
//! form, 36 characters with hyphens at positions 8, 13, 18 and 23 and
//! hexadecimal digits everywhere else. Identifiers are validated before any
//! storage location is derived from them.

use vstd::prelude::*;

verus! {

/// A hexadecimal digit, either case.
pub open spec fn is_hex_digit(c: char) -> bool {
    ('0' <= c && c <= '9') || ('a' <= c && c <= 'f') || ('A' <= c && c <= 'F')
}

/// The position of a hyphen in the hyphenated UUID form.
pub open spec fn is_hyphen_position(i: int) -> bool {
    i == 8 || i == 13 || i == 18 || i == 23
}

/// The hyphenated UUID textual format.
pub open spec fn is_uuid_text(s: Seq<char>) -> bool {
    &&& s.len() == 36
    &&& forall|i: int|
        0 <= i < 36 ==> (if is_hyphen_position(i) {
            s[i] == '-'
        } else {
            is_hex_digit(s[i])
        })
}

/// Whether a character is a hexadecimal digit.
pub fn hex_digit_ok(c: char) -> (r: bool)
    ensures
        r == is_hex_digit(c),
{
    ('0' <= c && c <= '9') || ('a' <= c && c <= 'f') || ('A' <= c && c <= 'F')
}

/// Whether one character is acceptable at one position of an identifier.
fn id_char_ok(c: char, i: usize) -> (r: bool)
    ensures
        r == (if is_hyphen_position(i as int) {
            c == '-'
        } else {
            is_hex_digit(c)
        }),
{
    if i == 8 || i == 13 || i == 18 || i == 23 {
        c == '-'
    } else {
        ('0' <= c && c <= '9') || ('a' <= c && c <= 'f') || ('A' <= c && c <= 'F')
    }
}

/// Validates an identifier taken from a request path.
pub fn is_valid_record_id(id: &str) -> (r: bool)
    ensures
        r == is_uuid_text(id@),
{
    let n = id.unicode_len();
    if n != 36 {
        return false;
    }
    let mut i: usize = 0;
    while i < 36
        invariant
            0 <= i <= 36,
            id@.len() == 36,
            forall|j: int|
                0 <= j < i ==> (if is_hyphen_position(j) {
                    id@[j] == '-'
                } else {
                    is_hex_digit(id@[j])
                }),
        decreases 36 - i,
    {
        let c = id.get_char(i);
        if !id_char_ok(c, i) {
            return false;
        }
        i = i + 1;
    }
    true
}

} // verus!
