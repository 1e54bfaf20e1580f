//! The name under which one run's display container goes.

use vstd::prelude::*;
use crate::text::free_of;

verus! {

/// A digit of lower-case hexadecimal notation.
pub open spec fn is_lower_hex(c: char) -> bool {
    ('0' <= c && c <= '9') || ('a' <= c && c <= 'f')
}

/// The shape of a random identifier in hyphenated lower-case notation: five
/// groups of 8, 4, 4, 4 and 12 hexadecimal digits with a hyphen between each
/// two, the third group starting with the version `4` and the fourth with one
/// of `8`, `9`, `a`, `b`.
pub open spec fn is_session_name(name: Seq<char>) -> bool {
    &&& name.len() == 36
    &&& forall|i: int|
        0 <= i < 36 ==> if i == 8 || i == 13 || i == 18 || i == 23 {
            #[trigger] name[i] == '-'
        } else {
            is_lower_hex(name[i])
        }
    &&& name[14] == '4'
    &&& (name[19] == '8' || name[19] == '9' || name[19] == 'a' || name[19] == 'b')
}

/// A session name stands as one word between quotes: it holds no space, no
/// line feed and no quote.
pub proof fn lemma_session_name_is_plain(name: Seq<char>)
    requires
        is_session_name(name),
    ensures
        free_of(name, ' '),
        free_of(name, '\n'),
        free_of(name, '"'),
{
    assert forall|i: int| 0 <= i < name.len() implies name[i] != ' ' && name[i] != '\n' && name[i]
        != '"' by {
    }
}

/// A name for this run, drawn at random.
///
/// Calls `Uuid::new_v4` of the `uuid` crate and writes the identifier with
/// `to_string`. The generator fills 128 bits from the operating system's
/// random source and then fixes the version and variant bits; the text is the
/// hyphenated lower-case form. Only that shape is claimed, since the digits
/// differ from call to call. The call ends the process where the operating
/// system has no random bytes to give.
#[verifier::external_body]
pub(crate) fn fresh_session_name() -> (name: String)
    ensures
        is_session_name(name@),
{
    uuid::Uuid::new_v4().to_string()
}

} // verus!
