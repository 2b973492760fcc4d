//! Who is asking: `/v3/session`.

use vstd::prelude::*;
use crate::text::text_of;

verus! {

/// The user a key belongs to. Only the tenant's external identifier is known of them.
#[derive(Debug)]
pub struct SessionResponse {
    pub user_id: String,
    pub email: Option<String>,
    pub name: Option<String>,
}

/// The user identifier of a tenant: its external identifier, and nothing where it has none.
pub open spec fn user_id_of(external_id: Option<Seq<char>>) -> Seq<char> {
    match external_id {
        Some(id) => id,
        None => ""@,
    }
}

/// The user identifier of a tenant.
pub fn user_id(external_id: Option<String>) -> (r: String)
    ensures
        r@ == user_id_of(text_of(external_id)),
        external_id is Some ==> r@ == external_id->0@,
        external_id is None ==> r@ == ""@,
{
    match external_id {
        Some(id) => id,
        None => "".to_owned(),
    }
}

/// The answer to who is asking.
pub fn session(external_id: Option<String>) -> (r: SessionResponse)
    ensures
        r.user_id@ == user_id_of(text_of(external_id)),
        external_id is Some ==> r.user_id@ == external_id->0@,
        external_id is None ==> r.user_id@ == ""@,
        r.email is None,
        r.name is None,
{
    SessionResponse { user_id: user_id(external_id), email: None, name: None }
}

} // verus!
