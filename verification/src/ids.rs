//! Task identifiers for spawned workers.
use vstd::prelude::*;
use crate::text::{append_str, owned};

verus! {

/// A lowercase hexadecimal digit.
pub open spec fn is_lower_hex(c: char) -> bool {
    ('0' <= c <= '9') || ('a' <= c <= 'f')
}

/// The hyphenated lowercase text of a version-4 UUID:
/// `xxxxxxxx-xxxx-4xxx-xxxx-xxxxxxxxxxxx`.
pub open spec fn is_v4_uuid_text(s: Seq<char>) -> bool {
    &&& s.len() == 36
    &&& forall|i: int|
        0 <= i < 36 ==> if i == 8 || i == 13 || i == 18 || i == 23 {
            #[trigger] s[i] == '-'
        } else {
            is_lower_hex(s[i])
        }
    &&& s[14] == '4'
}

/// `uuid::Uuid::new_v4()`, written with `Display`.
///
/// The value is random. The contract claims only the shape that the uuid
/// crate's hyphenated lowercase formatting gives a version-4 UUID. The call
/// panics when the operating system's random source fails; that is not
/// stated.
#[verifier::external_body]
fn new_v4_text() -> (s: String)
    ensures
        is_v4_uuid_text(s@),
{
    uuid::Uuid::new_v4().to_string()
}

/// A worker task id: `sub-` and a version-4 UUID.
pub open spec fn is_task_id(s: Seq<char>) -> bool {
    &&& "sub-"@.is_prefix_of(s)
    &&& is_v4_uuid_text(s.skip("sub-"@.len() as int))
}

/// A fresh task id for a spawned worker.
pub fn new_task_id() -> (id: String)
    ensures
        is_task_id(id@),
{
    let u = new_v4_text();
    let mut id = owned("sub-");
    append_str(&mut id, u.as_str());
    assert(id@.skip("sub-"@.len() as int) == u@);
    id
}

} // verus!
