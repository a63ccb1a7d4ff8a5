//! Fresh identifiers for segments and clients.

use vstd::prelude::*;

verus! {

/// Number of characters of a segment id.
pub const SEGMENT_ID_LEN: usize = 36;

/// Number of characters of a client id.
pub const CLIENT_ID_LEN: usize = 32;

/// A new random (version 4) UUID from `uuid::Uuid::new_v4`, written out by
/// its `Display` impl.  Trusted: that impl writes the hyphenated lower-case
/// form, which is 36 characters long.  Which id comes out is left open.
/// `new_v4` panics if the operating system hands out no random bytes; that
/// is taken as a failure of the machine, like running out of memory.
#[verifier::external_body]
pub(crate) fn fresh_segment_id() -> (id: String)
    ensures
        id@.len() == SEGMENT_ID_LEN,
{
    uuid::Uuid::new_v4().to_string()
}

/// A new random (version 4) UUID from `uuid::Uuid::new_v4`, written out
/// through `uuid::Uuid::simple`.  Trusted: that form is the 32 lower-case hex
/// digits without hyphens.  Which id comes out is left open.  `new_v4`
/// panics if the operating system hands out no random bytes; that is taken
/// as a failure of the machine, like running out of memory.
#[verifier::external_body]
pub(crate) fn fresh_client_id() -> (id: String)
    ensures
        id@.len() == CLIENT_ID_LEN,
{
    uuid::Uuid::new_v4().simple().to_string()
}

} // verus!
