//! Bodies of the chat API's requests and answers.
use vstd::prelude::*;

verus! {

/// Create a chat with these members.
#[derive(Debug, PartialEq, Eq)]
pub struct CreateChatReq {
    pub name: Option<String>,
    pub user_ids: Vec<i64>,
    pub is_public: bool,
}

/// Replace a chat's name and members.
#[derive(Debug, PartialEq, Eq)]
pub struct UpdateChatReq {
    pub id: i64,
    pub name: Option<String>,
    pub user_ids: Vec<i64>,
    pub is_public: bool,
}

/// Delete a chat.
#[derive(Debug, PartialEq, Eq)]
pub struct DeleteChatReq {
    pub id: i64,
}

/// List the messages of a chat older than `last_id`, at most `limit` of them.
#[derive(Debug, PartialEq, Eq)]
pub struct MessageListRequest {
    pub last_id: Option<i64>,
    pub limit: Option<isize>,
}

/// Send a message with text and file URLs.
#[derive(Debug, PartialEq, Eq)]
pub struct MessageSendRequest {
    pub content: String,
    pub files: Vec<String>,
}

/// Register a user in a workspace (created when it does not exist).
#[derive(Debug, PartialEq, Eq)]
pub struct SignUpReq {
    pub username: String,
    pub email: String,
    pub password: String,
    pub workspace: String,
}

/// Sign in with email and password.
#[derive(Debug, PartialEq, Eq)]
pub struct SignInReq {
    pub email: String,
    pub password: String,
}

/// Create a workspace.
#[derive(Debug, PartialEq, Eq)]
pub struct CreateWorkspaceReq {
    pub name: String,
    pub owner_id: i64,
}

/// The token handed out on sign-up and sign-in.
#[derive(Debug, PartialEq, Eq)]
pub struct AuthOutput {
    pub token: String,
}

} // verus!
