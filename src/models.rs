//! Requests, responses and records exchanged by the blog's services.

use vstd::prelude::*;

verus! {

/// A request to publish a post.
pub struct CreatePostRequest {
    pub title: String,
    pub content: String,
    pub summary: Option<String>,
    pub public: bool,
}

/// The answer to a created post: the slug it is found under.
pub struct PostCreatedResponse {
    pub slug: String,
}

/// A request to change the post under `slug`.
pub struct UpdatePostRequest {
    pub slug: String,
    pub content: String,
    pub title: String,
    pub summary: Option<String>,
    pub public: bool,
}

/// Paging and ordering of a post listing.
pub struct PostsQueryParams {
    pub page: Option<u64>,
    pub per_page: Option<u64>,
    pub sort_by: Option<String>,
    pub sort_order: Option<String>,
}

/// A registration form.
pub struct UserRegistration {
    pub username: String,
    pub email: String,
    pub password: String,
    pub host: Option<String>,
}

/// The token that confirms a registration.
pub struct UserConfirmation {
    pub confirmation_token: String,
}

/// A login form.
pub struct UserLogin {
    pub username: String,
    pub password: String,
}

/// An uploaded file as stored.
pub struct TempFileModel {
    pub filename: String,
    pub path: String,
}

/// The mail server could not be reached.
#[derive(Debug)]
pub struct SmtpConnectionError;

/// How a call to the blog's API failed.
#[derive(Debug)]
pub enum ApiError {
    Unauthorized,
    ServerInternalError,
    UnknownResponse,
    UnknownError,
    RequestError,
}

/// Client of the blog's post API.
pub struct ApiService;

/// Client of the blog's authentication API.
pub struct AuthService;

/// How an authentication request failed.
pub enum AuthError {
    NetworkError,
    LoginError(String),
    RegistrationError,
    ConfirmationError,
    RegistrationConflict(String),
}

} // verus!
