//! Request and response bodies of the account and session endpoints.

use vstd::prelude::*;

verus! {

/// Body of a request that opens a chat between two users.
#[derive(Debug)]
pub struct CreateChatRequest {
    pub user1_email: String,
    pub user2_email: String,
}

/// A response that carries a message only.
#[derive(Debug)]
pub struct MessageOnlyResponse {
    pub message: String,
}

/// An account as submitted at registration or login.
#[derive(Debug)]
pub struct User {
    pub id: Option<i32>,
    pub email: String,
    pub password: String,
}

/// An account as shown to clients.
#[derive(Debug)]
pub struct UserWithoutPassword {
    pub id: Option<i32>,
    pub email: String,
}

/// The answer to a login attempt: a token and the user on success.
#[derive(Debug)]
pub struct LoginResponse {
    pub message: String,
    pub token: Option<String>,
    pub user: Option<UserWithoutPassword>,
}

/// The answer to a logout of an authenticated user.
pub fn logout() -> (r: MessageOnlyResponse)
    ensures
        r.message@ == "User logged out successfully!"@,
{
    MessageOnlyResponse { message: String::from_str("User logged out successfully!") }
}

/// The answer to a request that is not authenticated.
pub fn unauthorized() -> (r: MessageOnlyResponse)
    ensures
        r.message@ == "User unauthorized!"@,
{
    MessageOnlyResponse { message: String::from_str("User unauthorized!") }
}

} // verus!
