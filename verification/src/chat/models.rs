//! The chat service's stored records. Times are microseconds since the Unix
//! epoch (UTC).
use vstd::prelude::*;

verus! {

/// The kind of a chat, decided by its number of members and visibility.
#[derive(Clone, Copy, Debug, PartialEq, Eq, Structural)]
pub enum ChatType {
    Single,
    Group,
    PrivateChannel,
    PublicChannel,
}

/// A chat of a workspace.
#[derive(Debug, PartialEq, Eq)]
pub struct Chat {
    pub id: i64,
    pub name: Option<String>,
    pub chat_type: ChatType,
    pub workspace_id: i64,
    pub user_ids: Vec<i64>,
    pub created_at: i64,
}

/// A message sent in a chat, with the URLs of the files it carries.
#[derive(Debug, PartialEq, Eq)]
pub struct Message {
    pub id: i64,
    pub chat_id: i64,
    pub sender_id: i64,
    pub content: String,
    pub files: Vec<String>,
    pub created_at: i64,
}

/// A registered user; `password` holds the password hash when read for a
/// sign-in check and is empty otherwise.
#[derive(Debug, PartialEq, Eq)]
pub struct User {
    pub id: i64,
    pub username: String,
    pub email: String,
    pub password: String,
    pub workspace_id: i64,
    pub created_at: i64,
}

/// A user as listed to other users.
#[derive(Debug, PartialEq, Eq)]
pub struct ChatUser {
    pub id: i64,
    pub username: String,
    pub email: String,
    pub workspace_id: i64,
    pub created_at: i64,
}

/// A workspace and its owner.
#[derive(Debug, PartialEq, Eq)]
pub struct Workspace {
    pub id: i64,
    pub name: String,
    pub owner_id: i64,
    pub created_at: i64,
}

} // verus!
