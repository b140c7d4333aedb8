//! Session ids.

use crate::builder::provision_plan;
use crate::paths::session_root_of;
use crate::sandbox::{create_session_sandbox, Provision};
use crate::steps::plan_of;
use vstd::prelude::*;

verus! {

/// True for a lower-case hexadecimal digit.
pub open spec fn is_lower_hex(c: char) -> bool {
    ('0' <= c && c <= '9') || ('a' <= c && c <= 'f')
}

/// True for the text of a UUID in its usual form: 32 lower-case hexadecimal
/// digits in groups of 8, 4, 4, 4 and 12, with a hyphen between groups.
pub open spec fn is_uuid_text(s: Seq<char>) -> bool {
    &&& s.len() == 36
    &&& forall|i: int|
        0 <= i < 36 ==> if i == 8 || i == 13 || i == 18 || i == 23 {
            #[trigger] s[i] == '-'
        } else {
            is_lower_hex(s[i])
        }
}

/// A new random id.
///
/// Calls `uuid::Uuid::new_v4` and formats the result with its `Display`
/// impl, which writes the hyphenated lower-case form. Which id comes back is
/// left open; the contract states its shape alone. The call panics where the
/// operating system cannot supply random bytes.
#[verifier::external_body]
fn random_uuid() -> (id: String)
    ensures
        is_uuid_text(id@),
{
    uuid::Uuid::new_v4().to_string()
}

/// A new random session id.
pub fn new_session_id() -> (id: String)
    ensures
        is_uuid_text(id@),
        !id@.contains('/'),
{
    let id = random_uuid();
    proof {
        if id@.contains('/') {
            let i = choose|i: int| 0 <= i < id@.len() && id@[i] == '/';
            assert(id@[i] == '-' || is_lower_hex(id@[i]));
        }
    }
    id
}

/// A new session: a fresh id, and the sandbox to build for it. The id names
/// no directory but its own: it holds no separator.
pub fn new_session_sandbox() -> (made: (String, Provision))
    ensures
        is_uuid_text(made.0@),
        !made.0@.contains('/'),
        made.1.root@ == session_root_of(made.0@),
        plan_of(made.1.steps@) == provision_plan(made.1.root@),
{
    let id = new_session_id();
    let job = create_session_sandbox(id.as_str());
    (id, job)
}

} // verus!
