//! The decisions the chat API makes around its database and file-system
//! work: which chat kind a member list gives, which requests are refused,
//! and what each handler answers.
use vstd::prelude::*;

use crate::chars::{chars_of, extend_chars, extend_str, string_of};
use crate::chat::error::{
    AppError, STATUS_BAD_REQUEST, STATUS_FORBIDDEN, STATUS_NOT_FOUND,
};
use crate::chat::file::{join_chars, join_path};
use crate::chat::models::{Chat, ChatType};
use crate::chat::requests::{AuthOutput, MessageListRequest, MessageSendRequest};
use crate::chat::response::ApiResponse;
use crate::numtext::{i64_chars, int_text};

verus! {

/// The kind of a chat with `n` members: two members make a single chat,
/// three to ten a group, any other number a channel, public or private as
/// asked.
pub open spec fn chat_type_for(is_public: bool, n: nat) -> ChatType {
    if n == 2 {
        ChatType::Single
    } else if 3 <= n && n <= 10 {
        ChatType::Group
    } else if !is_public {
        ChatType::PrivateChannel
    } else {
        ChatType::PublicChannel
    }
}

/// The kind of a chat with `n` members.
pub fn chat_type_of(is_public: bool, n: usize) -> (t: ChatType)
    ensures
        t == chat_type_for(is_public, n as nat),
        n == 2 <==> t == ChatType::Single,
        3 <= n <= 10 <==> t == ChatType::Group,
        (n < 2 || n > 10) && !is_public <==> t == ChatType::PrivateChannel,
        (n < 2 || n > 10) && is_public <==> t == ChatType::PublicChannel,
{
    if n == 2 {
        ChatType::Single
    } else if 3 <= n && n <= 10 {
        ChatType::Group
    } else if !is_public {
        ChatType::PrivateChannel
    } else {
        ChatType::PublicChannel
    }
}

/// The kind of a chat by its member count: exactly two members make a single
/// chat; three to ten make a group, public or not; any other count makes a
/// channel, private unless asked public.
pub proof fn lemma_chat_kind_by_members(is_public: bool, n: nat)
    ensures
        chat_type_for(is_public, n) == ChatType::Single <==> n == 2,
        chat_type_for(is_public, n) == ChatType::Group <==> 3 <= n <= 10,
        chat_type_for(is_public, n) == ChatType::PrivateChannel <==> (n < 2 || n > 10)
            && !is_public,
        chat_type_for(is_public, n) == ChatType::PublicChannel <==> (n < 2 || n > 10) && is_public,
{
}

/// Visibility only matters for channels: chats of two to ten members are of
/// the same kind whether asked public or not, and larger ones are channels.
pub proof fn lemma_visibility_only_for_channels(n: nat)
    ensures
        2 <= n <= 10 ==> chat_type_for(true, n) == chat_type_for(false, n),
        n > 10 ==> chat_type_for(true, n) == ChatType::PublicChannel && chat_type_for(false, n)
            == ChatType::PrivateChannel,
{
}

fn invalid_request(text: &str) -> (e: AppError)
    ensures
        e matches AppError::InvalidRequest(m) && m@ == text@,
{
    AppError::InvalidRequest(String::from_str(text))
}

fn not_found(text: &str) -> (e: AppError)
    ensures
        e matches AppError::NotFound(m) && m@ == text@,
{
    AppError::NotFound(String::from_str(text))
}

/// A chat must be created (or updated) with at least one member.
pub fn check_member_list(user_ids: &Vec<i64>) -> (r: Result<(), AppError>)
    ensures
        r is Ok <==> user_ids@.len() > 0,
        r matches Err(e) ==> (e matches AppError::InvalidRequest(m) && m@ == "user_ids is empty"@),
{
    if user_ids.len() == 0 {
        Err(invalid_request("user_ids is empty"))
    } else {
        Ok(())
    }
}

/// After looking the members up: every requested member must exist, and the
/// chat's kind follows from their number.
pub fn chat_type_after_lookup(is_public: bool, requested: usize, found: usize) -> (r: Result<
    ChatType,
    AppError,
>)
    ensures
        found == requested ==> r == Ok::<ChatType, AppError>(chat_type_for(is_public, requested as nat)),
        found == requested && requested == 2 ==> r == Ok::<ChatType, AppError>(ChatType::Single),
        found == requested && 3 <= requested <= 10 ==> r == Ok::<ChatType, AppError>(
            ChatType::Group,
        ),
        found == requested && (requested < 2 || requested > 10) ==> r == Ok::<ChatType, AppError>(
            if is_public {
                ChatType::PublicChannel
            } else {
                ChatType::PrivateChannel
            },
        ),
        found != requested ==> (r matches Err(AppError::InvalidRequest(m)) && m@
            == "user not exists"@),
{
    if found != requested {
        Err(invalid_request("user not exists"))
    } else {
        Ok(chat_type_of(is_public, requested))
    }
}

/// A chat can only be updated if it exists.
pub fn check_chat_exists(found: bool) -> (r: Result<(), AppError>)
    ensures
        r is Ok <==> found,
        r matches Err(e) ==> (e matches AppError::NotFound(m) && m@ == "chat not exists"@),
{
    if found {
        Ok(())
    } else {
        Err(not_found("chat not exists"))
    }
}

/// Only members of a chat may read or write its messages.
pub fn check_chat_member(is_member: bool, user_id: i64) -> (r: Result<(), AppError>)
    ensures
        r is Ok <==> is_member,
        r matches Err(e) ==> (e matches AppError::Forbidden(m) && m@ == "user "@ + int_text(
            user_id as int,
        ) + " is not chat member"@),
{
    if is_member {
        Ok(())
    } else {
        let mut v = chars_of("user ");
        let id = i64_chars(user_id);
        extend_chars(&mut v, id.as_slice());
        extend_str(&mut v, " is not chat member");
        Err(AppError::Forbidden(string_of(v.as_slice())))
    }
}

/// A message must carry text or at least one file.
pub fn check_message(req: &MessageSendRequest) -> (r: Result<(), AppError>)
    ensures
        r is Ok <==> (req.content@.len() > 0 || req.files@.len() > 0),
        r matches Err(e) ==> (e matches AppError::InvalidRequest(m) && m@
            == "no content or file uploaded"@),
{
    if req.content.as_str().is_empty() && req.files.len() == 0 {
        Err(invalid_request("no content or file uploaded"))
    } else {
        Ok(())
    }
}

/// The failure for a message file that is not stored.
pub fn file_missing(file_path: &str) -> (e: AppError)
    ensures
        e matches AppError::NotFound(m) && m@ == "file "@ + file_path@ + " not exists"@,
{
    let mut v = chars_of("file ");
    extend_str(&mut v, file_path);
    extend_str(&mut v, " not exists");
    AppError::NotFound(string_of(v.as_slice()))
}

impl MessageListRequest {
    /// The query bounds: messages with an id below `last_id` (any id when it
    /// is not given), at most `limit` of them (10 when it is not given).
    pub fn bounds(&self) -> (r: (i64, i64))
        ensures
            r.0 == (match self.last_id {
                Some(id) => id,
                None => i64::MAX,
            }),
            r.1 == (match self.limit {
                Some(l) => l as int,
                None => 10,
            }),
    {
        let last_id = match self.last_id {
            Some(id) => id,
            None => i64::MAX,
        };
        let limit: isize = match self.limit {
            Some(l) => l,
            None => 10,
        };
        (last_id, limit as i64)
    }
}

/// Updating a workspace's owner must touch a row.
pub fn owner_update_outcome(rows_affected: u64, name: &str) -> (r: Result<(), AppError>)
    ensures
        r is Ok <==> rows_affected != 0,
        r matches Err(e) ==> (e matches AppError::NotFound(m) && m@ == "workspace with name "@
            + name@ + " not found"@),
{
    if rows_affected == 0 {
        let mut v = chars_of("workspace with name ");
        extend_str(&mut v, name);
        extend_str(&mut v, " not found");
        Err(AppError::NotFound(string_of(v.as_slice())))
    } else {
        Ok(())
    }
}

/// The sign-in answer: the token when the user was found, else a 403 naming
/// the email.
pub fn sign_in_body(token: Option<String>, email: &str) -> (r: ApiResponse<AuthOutput>)
    ensures
        match token {
            Some(t) => r.success && r.code == 200 && r.error is None && (r.data matches Some(o)
                && o.token == t),
            None => !r.success && r.code == 403 && r.data is None && (r.error matches Some(m) && m@
                == "user not found: "@ + email@),
        },
{
    match token {
        Some(token) => ApiResponse::success(AuthOutput { token }),
        None => {
            let mut v = chars_of("user not found: ");
            extend_str(&mut v, email);
            ApiResponse::error(STATUS_FORBIDDEN, string_of(v.as_slice()))
        },
    }
}

/// The chat-detail answer: the chat, or a 404 when there is none.
pub fn chat_detail_body(chat: Option<Chat>) -> (r: ApiResponse<Chat>)
    ensures
        match chat {
            Some(c) => r.success && r.code == 200 && r.error is None && r.data == Some(c),
            None => !r.success && r.code == 404 && r.data is None && (r.error matches Some(m) && m@
                == "chat not found"@),
        },
{
    match chat {
        Some(c) => ApiResponse::success(c),
        None => ApiResponse::error(STATUS_NOT_FOUND, String::from_str("chat not found")),
    }
}

/// The upload answer: the URLs of the stored files, or a 400 when no file
/// came.
pub fn upload_body(files: Vec<String>) -> (r: ApiResponse<Vec<String>>)
    ensures
        files@.len() > 0 ==> r.success && r.code == 200 && r.error is None && r.data == Some(files),
        files@.len() == 0 ==> !r.success && r.code == 400 && r.data is None && (r.error matches Some(
            m,
        ) && m@ == "no file uploaded"@),
{
    if files.len() == 0 {
        ApiResponse::error(STATUS_BAD_REQUEST, String::from_str("no file uploaded"))
    } else {
        ApiResponse::success(files)
    }
}

/// A download is only served from the user's own workspace: otherwise the
/// answer is a 403.
pub fn download_refusal(workspace_id: i64, user_workspace_id: i64) -> (r: Option<ApiResponse<()>>)
    ensures
        r is None <==> workspace_id == user_workspace_id,
        r matches Some(a) ==> !a.success && a.code == 403 && a.data is None && (a.error matches Some(
            m,
        ) && m@ == "forbidden"@),
{
    if workspace_id != user_workspace_id {
        Some(ApiResponse::error(STATUS_FORBIDDEN, String::from_str("forbidden")))
    } else {
        None
    }
}

/// The answer when the requested file is not stored.
pub fn download_missing() -> (r: ApiResponse<()>)
    ensures
        !r.success && r.code == 404 && r.data is None && (r.error matches Some(m) && m@
            == "file not found"@),
{
    ApiResponse::error(STATUS_NOT_FOUND, String::from_str("file not found"))
}

/// The media type `mime_guess` gives for a path: the first type registered
/// for its extension, `application/octet-stream` when there is none.
pub uninterp spec fn guessed_mime(path: Seq<char>) -> Seq<char>;

/// `mime_guess::from_path(..).first_or_octet_stream()`, written as text: it
/// looks only at the path's extension, so the result is named.
#[verifier::external_body]
fn mime_of_path(path: &str) -> (m: String)
    ensures
        m@ == guessed_mime(path@),
{
    mime_guess::from_path(path).first_or_octet_stream().to_string()
}

/// The content type a downloaded file is sent with, guessed from its path.
pub fn download_content_type(path: &str) -> (m: String)
    ensures
        m@ == guessed_mime(path@),
{
    mime_of_path(path)
}

/// Where a downloaded file is looked for: the workspace's directory under
/// `file_dir`, joined with the requested path.
pub fn download_path(file_dir: &str, workspace_id: i64, filepath: &str) -> (p: String)
    ensures
        p@ == join_path(join_path(file_dir@, int_text(workspace_id as int)), filepath@),
{
    let ws = i64_chars(workspace_id);
    let dir_chars = join_chars(file_dir, ws.as_slice());
    let dir = string_of(dir_chars.as_slice());
    let rel = chars_of(filepath);
    let v = join_chars(dir.as_str(), rel.as_slice());
    string_of(v.as_slice())
}

} // verus!
