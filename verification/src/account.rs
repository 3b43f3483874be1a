//! The stored account record and what the core reads from it. Loading and
//! saving the record is the caller's business; the library only inspects
//! the plain values it is handed.

use vstd::prelude::*;

verus! {

/// Credentials and identity of the authenticated workspace member, as the
/// login collaborator delivers them.
pub struct User {
    pub access_token: String,
    pub bot_id: String,
    pub user_id: String,
    pub user_name: String,
    pub user_email: String,
    pub workspace_id: String,
}

/// Token carried by a stored record, or the empty string when there is
/// none.
pub open spec fn spec_access_token(user: Option<User>) -> Seq<char> {
    match user {
        Option::Some(u) => u.access_token@,
        Option::None => Seq::<char>::empty(),
    }
}

/// Bearer token for outbound requests: the stored record's token, or empty
/// when nobody is logged in.
pub fn get_access_token(user: Option<User>) -> (token: String)
    ensures
        token@ == spec_access_token(user),
{
    match user {
        Option::Some(u) => u.access_token,
        Option::None => String::new(),
    }
}

} // verus!
