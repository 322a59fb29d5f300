//! Fresh identifiers.
use vstd::prelude::*;

verus! {

/// Whether a character is a lowercase hexadecimal digit.
pub open spec fn is_hex(c: char) -> bool {
    '0' <= c <= '9' || 'a' <= c <= 'f'
}

/// Whether a text is a version 4 UUID, of the variant of RFC 4122, in its
/// hyphenated lowercase form.
pub open spec fn is_uuid(s: Seq<char>) -> bool {
    &&& s.len() == 36
    &&& forall|i: int|
        0 <= i < 36 ==> if i == 8 || i == 13 || i == 18 || i == 23 {
            #[trigger] s[i] == '-'
        } else {
            is_hex(s[i])
        }
    &&& s[14] == '4'
    &&& s[19] == '8' || s[19] == '9' || s[19] == 'a' || s[19] == 'b'
}

/// A random identifier, by `uuid::Uuid::new_v4` and its `to_string`: which one
/// is left to chance, but it is always a version 4 UUID in hyphenated lowercase.
#[verifier::external_body]
pub(crate) fn fresh_id() -> (r: String)
    ensures
        is_uuid(r@),
{
    uuid::Uuid::new_v4().to_string()
}

/// A random byte: the first of `uuid::Uuid::new_v4().as_bytes()`. Nothing is
/// claimed of its value.
#[verifier::external_body]
pub(crate) fn random_byte() -> (r: u8)
{
    uuid::Uuid::new_v4().as_bytes()[0]
}

/// A UUID consists of ASCII characters.
pub proof fn lemma_uuid_ascii(s: Seq<char>)
    requires
        is_uuid(s),
    ensures
        vstd::utf8::is_ascii_chars(s),
{
    assert forall|i: int| 0 <= i < s.len() implies '\0' <= #[trigger] s[i] <= '\u{7f}' by {
        if !(i == 8 || i == 13 || i == 18 || i == 23) {
            assert(is_hex(s[i]));
        } else {
            assert(s[i] == '-');
        }
    }
}

} // verus!
