//! Data model of the service: the stored user row, the request payloads,
//! and the transport-facing response shapes, together with their
//! mathematical views.

use vstd::prelude::*;

use crate::numeral::dec_str;
use crate::numeral::i32_to_string;
use crate::timefmt::rfc3339_of;
use crate::timefmt::rfc3339_utc_string;
use crate::timefmt::timestamp_in_range;

verus! {

/// Mathematical view of a stored user row.
pub ghost struct UserModel {
    pub id: int,
    pub name: Seq<char>,
    pub email: Seq<char>,
    pub active: bool,
    pub created_at: int,
}

/// User model for the backing table.
///
/// `created_at` is the creation instant in microseconds since the Unix
/// epoch; it is set once at creation and never changes afterwards.
#[derive(Debug)]
pub struct User {
    pub id: i32,
    pub name: String,
    pub email: String,
    pub active: bool,
    pub created_at: i64,
}

impl View for User {
    type V = UserModel;

    open spec fn view(&self) -> UserModel {
        UserModel {
            id: self.id as int,
            name: self.name@,
            email: self.email@,
            active: self.active,
            created_at: self.created_at as int,
        }
    }
}

impl Clone for User {
    fn clone(&self) -> (r: Self)
        ensures
            r@ == self@,
    {
        User {
            id: self.id,
            name: self.name.clone(),
            email: self.email.clone(),
            active: self.active,
            created_at: self.created_at,
        }
    }
}

/// Mathematical view of an API response row.
pub ghost struct UserResponseModel {
    pub id: Seq<char>,
    pub name: Seq<char>,
    pub email: Seq<char>,
    pub active: bool,
    pub created_at: Seq<char>,
}

/// User model for API responses.
///
/// The numeric row id is rendered as a decimal string for transport
/// stability, and the creation instant as an RFC 3339 timestamp.
#[derive(Debug, Clone)]
pub struct UserResponse {
    pub id: String,
    pub name: String,
    pub email: String,
    pub active: bool,
    pub created_at: String,
}

impl View for UserResponse {
    type V = UserResponseModel;

    open spec fn view(&self) -> UserResponseModel {
        UserResponseModel {
            id: self.id@,
            name: self.name@,
            email: self.email@,
            active: self.active,
            created_at: self.created_at@,
        }
    }
}

/// Mathematical view of a creation payload.
pub ghost struct CreateModel {
    pub name: Seq<char>,
    pub email: Seq<char>,
}

/// User creation request payload: both fields are required and are
/// validated before anything is persisted.
#[derive(Debug, Clone)]
pub struct CreateUserRequest {
    pub name: String,
    pub email: String,
}

impl View for CreateUserRequest {
    type V = CreateModel;

    open spec fn view(&self) -> CreateModel {
        CreateModel { name: self.name@, email: self.email@ }
    }
}

/// Mathematical view of an update payload.
pub ghost struct UpdateModel {
    pub name: Option<Seq<char>>,
    pub email: Option<Seq<char>>,
    pub active: Option<bool>,
}

/// User update request payload: each field is independently optional, and
/// absent fields leave the stored value unchanged.
#[derive(Debug, Clone)]
pub struct UpdateUserRequest {
    pub name: Option<String>,
    pub email: Option<String>,
    pub active: Option<bool>,
}

impl View for UpdateUserRequest {
    type V = UpdateModel;

    open spec fn view(&self) -> UpdateModel {
        UpdateModel {
            name: match self.name {
                Some(ref s) => Some(s@),
                None => None,
            },
            email: match self.email {
                Some(ref s) => Some(s@),
                None => None,
            },
            active: self.active,
        }
    }
}

/// The response row that a stored row is rendered as: the id in decimal,
/// the creation instant in RFC 3339, the other fields passed through.
pub open spec fn response_model(u: UserModel) -> UserResponseModel {
    UserResponseModel {
        id: dec_str(u.id),
        name: u.name,
        email: u.email,
        active: u.active,
        created_at: rfc3339_of(u.created_at),
    }
}

impl User {
    /// Convert a stored row to its API response form.
    pub fn to_response(self) -> (r: UserResponse)
        requires
            timestamp_in_range(self@.created_at),
        ensures
            r@ == response_model(self@),
    {
        let id = i32_to_string(self.id);
        let created_at = rfc3339_utc_string(self.created_at).unwrap();
        UserResponse { id, name: self.name, email: self.email, active: self.active, created_at }
    }

    /// Convert a list of stored rows to their API response forms, in the
    /// same order.
    pub fn list_to_response(users: Vec<User>) -> (r: Vec<UserResponse>)
        requires
            forall|i: int|
                0 <= i < users@.len() ==> timestamp_in_range(#[trigger] users@[i]@.created_at),
        ensures
            r@.map_values(|x: UserResponse| x@) == users@.map_values(
                |u: User| response_model(u@),
            ),
    {
        let mut out: Vec<UserResponse> = Vec::new();
        let mut i: usize = 0;
        while i < users.len()
            invariant
                0 <= i <= users@.len(),
                forall|j: int|
                    0 <= j < users@.len() ==> timestamp_in_range(
                        #[trigger] users@[j]@.created_at,
                    ),
                out@.len() == i,
                forall|j: int|
                    0 <= j < i ==> #[trigger] out@[j]@ == response_model(users@[j]@),
            decreases users@.len() - i,
        {
            let u = users[i].clone();
            out.push(u.to_response());
            i = i + 1;
        }
        proof {
            assert(out@.map_values(|x: UserResponse| x@) =~= users@.map_values(
                |u: User| response_model(u@),
            ));
        }
        out
    }
}

/// Error response body rendered for every failed request: a stable JSON
/// shape with `success` always false and a human-readable message.
#[derive(Debug, Clone)]
pub struct ErrorResponse {
    pub success: bool,
    pub message: String,
    pub error: Option<String>,
}

impl ErrorResponse {
    pub fn new(message: String) -> (r: Self)
        ensures
            !r.success,
            r.message@ == message@,
            r.error is None,
    {
        Self { success: false, message, error: None }
    }

    pub fn with_error(message: String, error: String) -> (r: Self)
        ensures
            !r.success,
            r.message@ == message@,
            r.error matches Some(e) && e@ == error@,
    {
        Self { success: false, message, error: Some(error) }
    }
}

} // verus!
