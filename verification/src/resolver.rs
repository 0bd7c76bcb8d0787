//! Finding one user, by name or by id.

use crate::errors::AppError;
use crate::models::{User, UserKey};
use crate::store::Store;
use vstd::prelude::*;

verus! {

/// The user that `key` names.
///
/// Reads the store and changes nothing. Where no user has the name or the
/// id, the answer is `NotFound`.
pub fn find_user<'a>(store: &Store, key: UserKey<'a>) -> (found: Result<User, AppError>)
    requires
        store.wf(),
    ensures
        match found {
            Ok(user) => store@.find_user(key@) == Some(user@),
            Err(e) => e == AppError::NotFound && store@.find_user(key@) is None,
        },
{
    let row = match key {
        UserKey::Username(name) => store.user_by_name(name),
        UserKey::ID(id) => store.user_by_id(id),
    };
    match row {
        Some(user) => Ok(user.clone()),
        None => Err(AppError::NotFound),
    }
}

} // verus!
