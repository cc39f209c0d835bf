use std::collections::HashSet;

use jwt_simple::prelude::Ed25519KeyPair;

use rust_practice::chat::auth::{
    new_request_id, select_token, server_time_value, verification_outcome, HeaderToken,
};
use rust_practice::chat::error::AppError;
use rust_practice::chat::file::ChatFile;
use rust_practice::chat::jwt::{DecodingKey, EncodingKey};
use rust_practice::chat::models::{Chat, ChatType, Message, User};
use rust_practice::chat::notify::{
    channel_of, get_effected_chat_user_ids, op_is_insert_update_delete, AppEvent, Channel, ChatMessageCreated, ChatUpdated,
    Notification,
};
use rust_practice::chat::password::{hash_password, verify_password, verify_user};
use rust_practice::chat::requests::{MessageListRequest, MessageSendRequest};
use rust_practice::chat::response::ApiResponse;
use rust_practice::chat::rules::{
    chat_detail_body, chat_type_after_lookup, chat_type_of, check_chat_exists, check_chat_member,
    check_member_list, check_message, download_content_type, download_missing, download_path, download_refusal,
    file_missing, owner_update_outcome, sign_in_body, upload_body,
};
use rust_practice::numtext::{i64_to_string, parse_i64, u128_to_string};

fn chat(id: i64, user_ids: Vec<i64>) -> Chat {
    Chat {
        id,
        name: Some("c".to_string()),
        chat_type: ChatType::Group,
        workspace_id: 1,
        user_ids,
        created_at: 0,
    }
}

fn message() -> Message {
    Message {
        id: 1,
        chat_id: 1,
        sender_id: 1,
        content: "Hello, world!".to_string(),
        files: vec![],
        created_at: 0,
    }
}

#[test]
fn api_response_envelopes() {
    let r = ApiResponse::success(5);
    assert_eq!(r, ApiResponse { success: true, code: 200, error: None, data: Some(5) });
    let r: ApiResponse<()> = ApiResponse::error(404, "gone".to_string());
    assert_eq!(
        r,
        ApiResponse { success: false, code: 404, error: Some("gone".to_string()), data: None }
    );
}

#[test]
fn app_error_status_and_message() {
    let cases = vec![
        (AppError::DBError("x".into()), 500, "DB error, x"),
        (AppError::InternalError("x".into()), 500, "Internal server error, x"),
        (AppError::IOError("x".into()), 500, "IO error, x"),
        (AppError::JwtError("x".into()), 403, "JWT error, x"),
        (AppError::PasswordError("x".into()), 403, "Password error, x"),
        (AppError::Forbidden("x".into()), 403, "Forbidden, x"),
        (AppError::NotFound("x".into()), 404, "Not found, x"),
        (AppError::InvalidRequest("x".into()), 400, "Invalid request, x"),
        (AppError::InvalidFile("x".into()), 400, "Invalid file, x"),
    ];
    for (e, code, msg) in cases {
        assert_eq!(e.status(), code);
        assert_eq!(e.message(), msg);
        let r = e.into_response();
        assert_eq!(
            r,
            ApiResponse { success: false, code, error: Some(msg.to_string()), data: None }
        );
    }
}

#[test]
fn integer_text() {
    assert_eq!(i64_to_string(0), "0");
    assert_eq!(i64_to_string(-42), "-42");
    assert_eq!(i64_to_string(i64::MIN), "-9223372036854775808");
    assert_eq!(u128_to_string(u128::MAX), u128::MAX.to_string());
    let p = |s: &str| parse_i64(&s.chars().collect::<Vec<_>>());
    assert_eq!(p("12"), Some(12));
    assert_eq!(p("+12"), Some(12));
    assert_eq!(p("-0"), Some(0));
    assert_eq!(p("007"), Some(7));
    assert_eq!(p("9223372036854775807"), Some(i64::MAX));
    assert_eq!(p("-9223372036854775808"), Some(i64::MIN));
    assert_eq!(p("9223372036854775808"), None);
    assert_eq!(p(""), None);
    assert_eq!(p("-"), None);
    assert_eq!(p("1a"), None);
    assert_eq!(p(" 1"), None);
    for s in ["12", "+12", "-0", "99999999999999999999", "x", "-", "+"] {
        assert_eq!(p(s), s.parse::<i64>().ok());
    }
}

#[test]
fn chat_file_from_upload() {
    let f = ChatFile::try_new(1, "photo.final.jpg", b"hello").unwrap();
    assert_eq!(f.workspace_id, 1);
    assert_eq!(f.ext, "jpg");
    assert_eq!(f.hash, "aaf4c61ddcc5e8a2dabede0f3b482cd9aea9434d");
    assert_eq!(f.hash_to_path(), "1/aaf/4c6/1ddcc5e8a2dabede0f3b482cd9aea9434d.jpg");
    assert_eq!(f.url(), "/chat/files/1/aaf/4c6/1ddcc5e8a2dabede0f3b482cd9aea9434d.jpg");
    assert_eq!(
        f.path("/tmp/chat"),
        "/tmp/chat/1/aaf/4c6/1ddcc5e8a2dabede0f3b482cd9aea9434d.jpg"
    );
    assert_eq!(
        f.path("/tmp/chat/"),
        "/tmp/chat/1/aaf/4c6/1ddcc5e8a2dabede0f3b482cd9aea9434d.jpg"
    );
    assert_eq!(f.path(""), "1/aaf/4c6/1ddcc5e8a2dabede0f3b482cd9aea9434d.jpg");
    let g = ChatFile::try_new(-3, "README", b"").unwrap();
    assert_eq!(g.ext, "README");
    assert_eq!(g.hash, "da39a3ee5e6b4b0d3255bfef95601890afd80709");
    assert_eq!(g.hash_to_path(), "-3/da3/9a3/ee5e6b4b0d3255bfef95601890afd80709.README");
}

#[test]
fn chat_file_url_round_trip() {
    for (ws, name, data) in [(1, "a.jpg", &b"x"[..]), (-7, "noext", &b"yy"[..]), (0, "t.tar.gz", &b""[..])] {
        let f = ChatFile::try_new(ws, name, data).unwrap();
        let g = ChatFile::from_str(&f.url()).unwrap();
        assert_eq!(g.workspace_id, f.workspace_id);
        assert_eq!(g.ext, f.ext);
        assert_eq!(g.hash, f.hash);
    }
    // any ASCII hash of six or more characters without `/` or `.` reads back
    let f = ChatFile { workspace_id: 42, ext: "txt".into(), hash: "ABCdef".into() };
    assert_eq!(f.url(), "/chat/files/42/ABC/def/.txt");
    let g = ChatFile::from_str(&f.url()).unwrap();
    assert_eq!((g.workspace_id, g.ext, g.hash), (42, "txt".to_string(), "ABCdef".to_string()));
    let g = ChatFile::from_str("/chat/files/1/779/20c/5872d746712af6e43d2397aa8795df04a6.jpg").unwrap();
    assert_eq!(g.workspace_id, 1);
    assert_eq!(g.ext, "jpg");
    assert_eq!(g.hash, "77920c5872d746712af6e43d2397aa8795df04a6");
}

#[test]
fn chat_file_bad_urls() {
    let e = ChatFile::from_str("chat/files/1/7e1/139/697d00b564f9522765ed41f6b207b12de5.jpg");
    assert_eq!(
        e.unwrap_err(),
        AppError::InvalidFile(
            "invalid file path: chat/files/1/7e1/139/697d00b564f9522765ed41f6b207b12de5.jpg"
                .to_string()
        )
    );
    assert_eq!(
        ChatFile::from_str("/chat/files/1/2/3").unwrap_err(),
        AppError::InvalidFile("invalid file path: 1/2/3".to_string())
    );
    assert_eq!(
        ChatFile::from_str("/chat/files/x/2/3/4.png").unwrap_err(),
        AppError::InvalidFile("invalid workspace_id: x".to_string())
    );
    assert_eq!(
        ChatFile::from_str("/chat/files/1/2/3/4png").unwrap_err(),
        AppError::InvalidFile("invalid filename or ext: 4png".to_string())
    );
    let f = ChatFile::from_str("/chat/files/2/ab/cd/ef.tar.gz").unwrap();
    assert_eq!(f.hash, "abcdef");
    assert_eq!(f.ext, "tar.gz");
}

#[test]
fn chat_kinds() {
    assert_eq!(chat_type_of(false, 2), ChatType::Single);
    assert_eq!(chat_type_of(true, 2), ChatType::Single);
    assert_eq!(chat_type_of(false, 3), ChatType::Group);
    assert_eq!(chat_type_of(true, 10), ChatType::Group);
    assert_eq!(chat_type_of(false, 11), ChatType::PrivateChannel);
    assert_eq!(chat_type_of(true, 11), ChatType::PublicChannel);
    assert_eq!(chat_type_of(true, 1), ChatType::PublicChannel);
    assert_eq!(chat_type_of(false, 1), ChatType::PrivateChannel);
}

#[test]
fn chat_kinds_of_creation_scenario() {
    // the member counts of the service's chat creation scenario
    assert_eq!(chat_type_after_lookup(false, 2, 2), Ok(ChatType::Single));
    assert_eq!(chat_type_after_lookup(false, 3, 3), Ok(ChatType::Group));
    assert_eq!(chat_type_after_lookup(false, 11, 11), Ok(ChatType::PrivateChannel));
    assert_eq!(
        chat_type_after_lookup(false, 3, 2),
        Err(AppError::InvalidRequest("user not exists".to_string()))
    );
}

#[test]
fn chat_request_checks() {
    assert_eq!(check_member_list(&vec![1]), Ok(()));
    assert_eq!(
        check_member_list(&vec![]),
        Err(AppError::InvalidRequest("user_ids is empty".to_string()))
    );
    assert_eq!(check_chat_exists(true), Ok(()));
    assert_eq!(
        check_chat_exists(false),
        Err(AppError::NotFound("chat not exists".to_string()))
    );
    assert_eq!(check_chat_member(true, 5), Ok(()));
    assert_eq!(
        check_chat_member(false, 5),
        Err(AppError::Forbidden("user 5 is not chat member".to_string()))
    );
}

#[test]
fn message_checks() {
    let empty = MessageSendRequest { content: String::new(), files: vec![] };
    assert_eq!(
        check_message(&empty),
        Err(AppError::InvalidRequest("no content or file uploaded".to_string()))
    );
    let text = MessageSendRequest { content: "hi".into(), files: vec![] };
    assert_eq!(check_message(&text), Ok(()));
    let file = MessageSendRequest { content: String::new(), files: vec!["/x".into()] };
    assert_eq!(check_message(&file), Ok(()));

    assert_eq!(
        file_missing("/chat/files/1/a/b/c.d"),
        AppError::NotFound("file /chat/files/1/a/b/c.d not exists".to_string())
    );
}

#[test]
fn message_list_bounds() {
    let r = MessageListRequest { last_id: None, limit: None };
    assert_eq!(r.bounds(), (i64::MAX, 10));
    let r = MessageListRequest { last_id: Some(50), limit: Some(3) };
    assert_eq!(r.bounds(), (50, 3));
}

#[test]
fn workspace_owner_update() {
    assert_eq!(owner_update_outcome(1, "acme"), Ok(()));
    assert_eq!(
        owner_update_outcome(0, "acme"),
        Err(AppError::NotFound("workspace with name acme not found".to_string()))
    );
}

#[test]
fn handler_bodies() {
    let r = sign_in_body(Some("tok".into()), "a@b.c");
    assert!(r.success);
    assert_eq!(r.data.unwrap().token, "tok");
    let r = sign_in_body(None, "a@b.c");
    assert_eq!(r.code, 403);
    assert_eq!(r.error, Some("user not found: a@b.c".to_string()));

    let r = chat_detail_body(Some(chat(3, vec![1, 2])));
    assert_eq!(r.data.unwrap().id, 3);
    let r = chat_detail_body(None);
    assert_eq!((r.code, r.error), (404, Some("chat not found".to_string())));

    let r = upload_body(vec!["/chat/files/1/a/b/c.d".into()]);
    assert_eq!(r.code, 200);
    let r = upload_body(vec![]);
    assert_eq!((r.code, r.error), (400, Some("no file uploaded".to_string())));

    assert_eq!(download_refusal(1, 1), None);
    let r = download_refusal(2, 1).unwrap();
    assert_eq!((r.code, r.error), (403, Some("forbidden".to_string())));
    let r = download_missing();
    assert_eq!((r.code, r.error), (404, Some("file not found".to_string())));
    assert_eq!(download_path("/data", 3, "aaf/4c6/x.jpg"), "/data/3/aaf/4c6/x.jpg");
    assert_eq!(download_path("/data", 3, "/etc/passwd"), "/etc/passwd");
}

#[test]
fn token_selection() {
    assert_eq!(
        select_token(HeaderToken::Bearer("h".into()), Some("q".into())),
        Ok("h".to_string())
    );
    assert_eq!(select_token(HeaderToken::Missing, Some("q".into())), Ok("q".to_string()));
    let r = select_token(HeaderToken::Missing, None).unwrap_err();
    assert_eq!(r.code, 401);
    assert_eq!(r.error, Some("failed to parse token from query".to_string()));
    let r = select_token(HeaderToken::Invalid("bad".into()), None).unwrap_err();
    assert_eq!(r.code, 401);
    assert_eq!(r.error, Some("Failed to parse token from header, error: bad".to_string()));
}

fn user() -> User {
    User {
        id: 1,
        username: "test".into(),
        email: "test@example.com".into(),
        password: String::new(),
        workspace_id: 1,
        created_at: 0,
    }
}

#[test]
fn token_verification() {
    assert_eq!(verification_outcome(Ok(user())), Ok(user()));
    let r = verification_outcome::<User>(Err("expired".into())).unwrap_err();
    assert_eq!(r.code, 403);
    assert_eq!(r.error, Some("Failed to verify token, error: expired".to_string()));
}

#[test]
fn answer_headers() {
    let id = new_request_id();
    assert_eq!(id.len(), 36);
    for (i, c) in id.chars().enumerate() {
        if i == 8 || i == 13 || i == 18 || i == 23 {
            assert_eq!(c, '-');
        } else {
            assert!(c.is_ascii_hexdigit() && !c.is_ascii_uppercase());
        }
    }
    assert_eq!(id.chars().nth(14), Some('7'));
    assert!(matches!(id.chars().nth(19), Some('8' | '9' | 'a' | 'b')));
    assert_ne!(id, new_request_id());
    assert_eq!(server_time_value(123), "123us");
    assert_eq!(server_time_value(0), "0us");
}

#[test]
fn notification_channels() {
    assert_eq!(channel_of("chat_updated"), Ok(Channel::ChatUpdated));
    assert_eq!(channel_of("chat_message_created"), Ok(Channel::ChatMessageCreated));
    assert_eq!(channel_of("other"), Err("Invalid notification type: other".to_string()));
}

fn set(v: &[i64]) -> HashSet<i64> {
    v.iter().copied().collect()
}

#[test]
fn affected_users_of_chat_changes() {
    let a = chat(1, vec![1, 2]);
    let b = chat(1, vec![2, 3]);
    assert_eq!(get_effected_chat_user_ids(None, Some(&a)), set(&[1, 2]));
    assert_eq!(get_effected_chat_user_ids(Some(&a), None), set(&[1, 2]));
    assert_eq!(get_effected_chat_user_ids(Some(&a), Some(&b)), set(&[1, 2, 3]));
    assert_eq!(get_effected_chat_user_ids(Some(&a), Some(&a)), set(&[]));
    assert_eq!(get_effected_chat_user_ids(None, None), set(&[]));
}

#[test]
fn chat_update_notifications() {
    let p = ChatUpdated { op: "INSERT".into(), old: None, new: Some(chat(1, vec![1, 2])) };
    let n = Notification::from_chat_updated(p).unwrap();
    assert_eq!(n.user_ids, set(&[1, 2]));
    assert_eq!(*n.event, AppEvent::NewChat(chat(1, vec![1, 2])));
    assert_eq!(n.event.name(), "NewChat");

    let p = ChatUpdated {
        op: "update".into(),
        old: Some(chat(1, vec![1])),
        new: Some(chat(1, vec![1, 4])),
    };
    let n = Notification::from_chat_updated(p).unwrap();
    assert_eq!(n.user_ids, set(&[1, 4]));
    assert_eq!(n.event.name(), "AddToChat");

    let p = ChatUpdated { op: "Delete".into(), old: Some(chat(1, vec![5])), new: None };
    let n = Notification::from_chat_updated(p).unwrap();
    assert_eq!(n.user_ids, set(&[5]));
    assert_eq!(*n.event, AppEvent::RemoveFromChat(chat(1, vec![5])));
    assert_eq!(n.event.name(), "RemoveFromChat");

    let p = ChatUpdated { op: "truncate".into(), old: None, new: None };
    assert_eq!(
        Notification::from_chat_updated(p).unwrap_err(),
        "Invalid operation: truncate".to_string()
    );
}

#[test]
fn message_notifications() {
    let p = ChatMessageCreated { message: message(), user_ids: vec![1, 2, 2] };
    let n = Notification::from_message_created(p);
    assert_eq!(n.user_ids, set(&[1, 2]));
    assert_eq!(n.event.name(), "NewMessage");
}

#[test]
fn password_hash_and_check() {
    let h = hash_password("secret").unwrap();
    assert!(h.starts_with("$argon2"));
    assert_eq!(verify_password("secret", &h), Ok(true));
    assert_eq!(verify_password("wrong", &h), Ok(false));
    assert!(matches!(verify_password("secret", "not a hash"), Err(AppError::PasswordError(_))));
    let mut u = user();
    u.password = h.clone();
    let v = verify_user(Some(u), "secret").unwrap().unwrap();
    assert_eq!(v, user());
    let mut u = user();
    u.password = h;
    assert_eq!(verify_user(Some(u), "nope"), Ok(None));
    assert_eq!(verify_user(None, "x"), Ok(None));
}

#[test]
fn password_hash_of_long_and_empty_passwords() {
    assert!(hash_password("").is_ok());
    let long = "x".repeat(10_000);
    let h = hash_password(&long).unwrap();
    assert_eq!(verify_password(&long, &h), Ok(true));
}

#[test]
fn jwt_keys_from_pem() {
    let pair = Ed25519KeyPair::generate();
    let sk = pair.to_pem();
    let pk = pair.public_key().to_pem();
    let ek = EncodingKey::load(&sk).unwrap();
    assert_eq!(ek.bytes, pair.to_bytes());
    assert_eq!(ek.bytes.len(), 64);
    let dk = DecodingKey::load(&pk).unwrap();
    assert_eq!(dk.bytes, pair.public_key().to_bytes());
    assert_eq!(dk.bytes.len(), 32);
    assert!(EncodingKey::load("not a key").is_err());
    assert!(DecodingKey::load("not a key").is_err());
    assert!(EncodingKey::load(&pk).is_err());
}

#[test]
fn download_content_types() {
    assert_eq!(download_content_type("a/b/photo.png"), "image/png");
    assert_eq!(download_content_type("a/b/notes.txt"), "text/plain");
    assert_eq!(download_content_type("a/b/blob.unknownext"), "application/octet-stream");
}

#[test]
fn chat_update_op_follows_unicode_lowercase() {
    let (i, u, d) = op_is_insert_update_delete("INSERT");
    assert!(i && !u && !d);
    let (i, u, d) = op_is_insert_update_delete("upd\u{0041}te");
    assert!(!i && u && !d);
}
