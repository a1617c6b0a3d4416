//! The request pipeline behind each endpoint: parse the id, validate the
//! payload, run the store operation, and classify any failure.
//!
//! Transport concerns (routing, JSON, status rendering) stay outside;
//! these functions take plain values and return either the response row
//! or an [`AppError`].

use vstd::prelude::*;

use crate::error::AppError;
use crate::model::CreateUserRequest;
use crate::model::UpdateUserRequest;
use crate::model::User;
use crate::model::UserModel;
use crate::model::UserResponse;
use crate::model::response_model;
use crate::numeral::int_literal_value;
use crate::numeral::parse_i32;
use crate::numeral::parse_i32_ok;
use crate::store::StoreError;
use crate::store::UserStore;
use crate::store::apply_update;
use crate::store::has_user_email;
use crate::store::has_user_id;
use crate::store::is_insert_position;
use crate::store::new_user_model;
use crate::store::update_email_conflict;
use crate::store::user_index;
use crate::store::user_with_id;
use crate::timefmt::timestamp_in_range;
use crate::validation::create_field_errors;
use crate::validation::update_field_errors;
use crate::validation::valid_create;
use crate::validation::valid_update;
use crate::validation::validate_create;
use crate::validation::validate_update;
use crate::validation::validation_message;
use crate::validation::validation_message_string;

verus! {

/// Create a user from a payload received at `now_micros`.
///
/// An invalid payload is rejected before the store is touched; a
/// payload whose email is already taken is rejected as a bad request;
/// otherwise the created row is returned, rendered for transport.
pub fn create_user(store: &mut UserStore, payload: CreateUserRequest, now_micros: i64) -> (r:
    Result<UserResponse, AppError>)
    requires
        old(store).wf(),
        old(store).next_id < 0x7fff_ffff,
        timestamp_in_range(now_micros as int),
    ensures
        final(store).wf(),
        !valid_create(payload@) ==> (r matches Err(e) && e matches AppError::BadRequest(m) && m@
            == validation_message(create_field_errors(payload@)) && *final(store) == *old(store)),
        valid_create(payload@) && has_user_email(old(store)@, payload.email@) ==> (r matches Err(e)
            && e matches AppError::BadRequest(m) && m@ == "Email address already exists"@
            && *final(store) == *old(store)),
        valid_create(payload@) && !has_user_email(old(store)@, payload.email@) ==> (r matches Ok(
            resp,
        ) && resp@ == response_model(
            new_user_model(old(store).next_id as int, payload@, now_micros as int),
        ) && final(store).next_id == old(store).next_id + 1 && (exists|k: int|
            is_insert_position(old(store)@, now_micros as int, k) && final(store)@ == old(
                store,
            )@.insert(k, new_user_model(old(store).next_id as int, payload@, now_micros as int)))),
{
    let errors = validate_create(&payload);
    if errors.len() > 0 {
        let msg = validation_message_string(&errors);
        return Err(AppError::BadRequest(msg));
    }
    match store.create_user(&payload, now_micros) {
        Ok(u) => Ok(u.to_response()),
        Err(e) => match e {
            StoreError::UniqueViolation => Err(
                AppError::BadRequest(String::from_str("Email address already exists")),
            ),
            StoreError::Failure(_) => Err(
                AppError::InternalServerError(String::from_str("Failed to create user")),
            ),
        },
    }
}

/// Fetch a user by the id given in the request path.
///
/// A path segment that does not parse as an integer is rejected before
/// the store is consulted; an id no row has yields a not-found error.
pub fn get_user_by_id(store: &UserStore, id: &str) -> (r: Result<UserResponse, AppError>)
    requires
        store.wf(),
    ensures
        !parse_i32_ok(id@) ==> (r matches Err(e) && e matches AppError::BadRequest(m) && m@
            == "Invalid user ID format"@),
        parse_i32_ok(id@) && !has_user_id(store@, int_literal_value(id@)) ==> (r matches Err(e)
            && e matches AppError::NotFound(m) && m@ == "User not found"@),
        parse_i32_ok(id@) && has_user_id(store@, int_literal_value(id@)) ==> (r matches Ok(resp)
            && resp@ == response_model(user_with_id(store@, int_literal_value(id@)))),
{
    let user_id = match parse_i32(id) {
        Some(v) => v,
        None => {
            return Err(AppError::BadRequest(String::from_str("Invalid user ID format")));
        },
    };
    match store.get_user_by_id(user_id) {
        Some(u) => {
            proof {
                let i = user_index(store@, user_id as int);
                assert(store@[i] == u@);
            }
            Ok(u.to_response())
        },
        None => Err(AppError::NotFound(String::from_str("User not found"))),
    }
}

/// List every user, newest first, rendered for transport.
pub fn list_users(store: &UserStore) -> (r: Vec<UserResponse>)
    requires
        store.wf(),
    ensures
        r@.map_values(|x: UserResponse| x@) == store@.map_values(|u: UserModel| response_model(u)),
{
    let users = store.list_users();
    proof {
        assert forall|i: int| 0 <= i < users@.len() implies timestamp_in_range(
            #[trigger] users@[i]@.created_at,
        ) by {
            assert(users@.map_values(|u: User| u@)[i] == store@[i]);
        }
    }
    let out = User::list_to_response(users);
    proof {
        assert(out@.map_values(|x: UserResponse| x@) =~= store@.map_values(
            |u: UserModel| response_model(u),
        ));
    }
    out
}

/// Update the user with the id given in the request path, applying
/// exactly the fields the payload carries.
///
/// The id is parsed first, then the payload validated, both before the
/// store is touched; an id no row has yields a not-found error, and an
/// email another row holds yields a bad request.
pub fn update_user(store: &mut UserStore, id: &str, payload: UpdateUserRequest) -> (r: Result<
    UserResponse,
    AppError,
>)
    requires
        old(store).wf(),
    ensures
        final(store).wf(),
        final(store).next_id == old(store).next_id,
        !parse_i32_ok(id@) ==> (r matches Err(e) && e matches AppError::BadRequest(m) && m@
            == "Invalid user ID format"@ && *final(store) == *old(store)),
        parse_i32_ok(id@) && !valid_update(payload@) ==> (r matches Err(e) && e matches
            AppError::BadRequest(m) && m@ == validation_message(update_field_errors(payload@))
            && *final(store) == *old(store)),
        parse_i32_ok(id@) && valid_update(payload@) && !has_user_id(
            old(store)@,
            int_literal_value(id@),
        ) ==> (r matches Err(e) && e matches AppError::NotFound(m) && m@ == "User not found"@
            && *final(store) == *old(store)),
        parse_i32_ok(id@) && valid_update(payload@) && has_user_id(
            old(store)@,
            int_literal_value(id@),
        ) && update_email_conflict(old(store)@, int_literal_value(id@), payload@) ==> (r matches
            Err(e) && e matches AppError::BadRequest(m) && m@ == "Email address already exists"@
            && *final(store) == *old(store)),
        parse_i32_ok(id@) && valid_update(payload@) && has_user_id(
            old(store)@,
            int_literal_value(id@),
        ) && !update_email_conflict(old(store)@, int_literal_value(id@), payload@) ==> (r matches
            Ok(resp) && resp@ == response_model(
            apply_update(user_with_id(old(store)@, int_literal_value(id@)), payload@),
        ) && final(store)@ == old(store)@.update(
            user_index(old(store)@, int_literal_value(id@)),
            apply_update(user_with_id(old(store)@, int_literal_value(id@)), payload@),
        )),
{
    let user_id = match parse_i32(id) {
        Some(v) => v,
        None => {
            return Err(AppError::BadRequest(String::from_str("Invalid user ID format")));
        },
    };
    let errors = validate_update(&payload);
    if errors.len() > 0 {
        let msg = validation_message_string(&errors);
        return Err(AppError::BadRequest(msg));
    }
    match store.update_user(user_id, &payload) {
        Ok(Some(u)) => {
            proof {
                let i = user_index(old(store)@, user_id as int);
                assert(old(store)@[i] == user_with_id(old(store)@, user_id as int));
            }
            Ok(u.to_response())
        },
        Ok(None) => Err(AppError::NotFound(String::from_str("User not found"))),
        Err(e) => match e {
            StoreError::UniqueViolation => Err(
                AppError::BadRequest(String::from_str("Email address already exists")),
            ),
            StoreError::Failure(_) => Err(
                AppError::InternalServerError(String::from_str("Failed to update user")),
            ),
        },
    }
}

/// Delete the user with the id given in the request path.
///
/// A path segment that does not parse as an integer is rejected before
/// the store is consulted; an id no row has yields a not-found error.
pub fn delete_user(store: &mut UserStore, id: &str) -> (r: Result<(), AppError>)
    requires
        old(store).wf(),
    ensures
        final(store).wf(),
        final(store).next_id == old(store).next_id,
        !parse_i32_ok(id@) ==> (r matches Err(e) && e matches AppError::BadRequest(m) && m@
            == "Invalid user ID format"@ && *final(store) == *old(store)),
        parse_i32_ok(id@) && !has_user_id(old(store)@, int_literal_value(id@)) ==> (r matches Err(
            e,
        ) && e matches AppError::NotFound(m) && m@ == "User not found"@ && *final(store) == *old(
            store,
        )),
        parse_i32_ok(id@) && has_user_id(old(store)@, int_literal_value(id@)) ==> (r matches Ok(_)
            && final(store)@ == old(store)@.remove(
            user_index(old(store)@, int_literal_value(id@)),
        )),
{
    let user_id = match parse_i32(id) {
        Some(v) => v,
        None => {
            return Err(AppError::BadRequest(String::from_str("Invalid user ID format")));
        },
    };
    if store.delete_user(user_id) {
        Ok(())
    } else {
        Err(AppError::NotFound(String::from_str("User not found")))
    }
}

} // verus!
