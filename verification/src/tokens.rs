//! Random identifiers.

use crate::text::{blank, trim_end, trim_start, white};
use vstd::prelude::*;
use vstd::string::*;

verus! {

/// Whether a text is written as a random UUID is: groups of 8, 4, 4, 4 and 12 small
/// hexadecimal digits with hyphens between them, the third group beginning with a 4.
pub open spec fn uuid_text(s: Seq<char>) -> bool {
    &&& s.len() == 36
    &&& s[14] == '4'
    &&& forall|i: int|
        0 <= i < 36 ==> if i == 8 || i == 13 || i == 18 || i == 23 {
            #[trigger] s[i] == '-'
        } else {
            '0' <= s[i] <= '9' || 'a' <= s[i] <= 'f'
        }
}

/// `uuid::Uuid::new_v4` draws a random UUID, which `Display` writes in hyphenated form
/// with small letters. Which one is drawn is not said.
#[verifier::external_body]
pub(crate) fn new_uuid() -> (r: String)
    ensures
        uuid_text(r@),
{
    uuid::Uuid::new_v4().to_string()
}

/// A random identifier is never blank.
pub proof fn uuids_are_not_blank(s: Seq<char>)
    requires
        uuid_text(s),
    ensures
        !blank(s),
{
    assert(!white(s[0]));
    assert(!white(s[35]));
    assert(trim_start(s) == s);
    assert(trim_end(s) == s);
}

} // verus!
