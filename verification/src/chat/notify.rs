//! Turning database change notifications into events for the users they
//! concern.
use std::collections::HashSet;
use std::sync::Arc;
use vstd::prelude::*;

use crate::chars::{chars_of, extend_str, lowercase_of, str_is, string_of, to_lowercase};
use crate::chat::models::{Chat, Message};

verus! {

/// An event pushed to a user.
#[derive(Debug, PartialEq, Eq)]
pub enum AppEvent {
    NewChat(Chat),
    AddToChat(Chat),
    RemoveFromChat(Chat),
    NewMessage(Message),
}

/// The payload of a `chat_updated` notification.
#[derive(Debug, PartialEq, Eq)]
pub struct ChatUpdated {
    pub op: String,
    pub old: Option<Chat>,
    pub new: Option<Chat>,
}

/// The payload of a `chat_message_created` notification.
#[derive(Debug, PartialEq, Eq)]
pub struct ChatMessageCreated {
    pub message: Message,
    pub user_ids: Vec<i64>,
}

/// An event and the users it goes to.
#[derive(Debug, PartialEq, Eq)]
pub struct Notification {
    pub user_ids: HashSet<i64>,
    pub event: Arc<AppEvent>,
}

/// The notification channels the server listens on.
#[derive(Clone, Copy, Debug, PartialEq, Eq, Structural)]
pub enum Channel {
    ChatUpdated,
    ChatMessageCreated,
}

impl AppEvent {
    /// The name an event is sent under.
    pub open spec fn name_of(&self) -> Seq<char> {
        match self {
            AppEvent::NewChat(_) => "NewChat"@,
            AppEvent::AddToChat(_) => "AddToChat"@,
            AppEvent::RemoveFromChat(_) => "RemoveFromChat"@,
            AppEvent::NewMessage(_) => "NewMessage"@,
        }
    }

    /// The name this event is sent under: the name of its kind.
    pub fn name(&self) -> (s: &'static str)
        ensures
            s@ == self.name_of(),
    {
        match self {
            AppEvent::NewChat(_) => "NewChat",
            AppEvent::AddToChat(_) => "AddToChat",
            AppEvent::RemoveFromChat(_) => "RemoveFromChat",
            AppEvent::NewMessage(_) => "NewMessage",
        }
    }
}

/// The channel a notification came on; other channels are refused.
pub fn channel_of(name: &str) -> (r: Result<Channel, String>)
    ensures
        name@ == "chat_updated"@ ==> r == Ok::<Channel, String>(Channel::ChatUpdated),
        name@ == "chat_message_created"@ ==> r == Ok::<Channel, String>(Channel::ChatMessageCreated),
        name@ != "chat_updated"@ && name@ != "chat_message_created"@ ==> (r matches Err(e) && e@
            == "Invalid notification type: "@ + name@),
{
    proof {
        reveal_strlit("chat_updated");
        reveal_strlit("chat_message_created");
        assert("chat_updated"@.len() != "chat_message_created"@.len());
    }
    if str_is(name, "chat_updated") {
        Ok(Channel::ChatUpdated)
    } else if str_is(name, "chat_message_created") {
        Ok(Channel::ChatMessageCreated)
    } else {
        let mut v = chars_of("Invalid notification type: ");
        extend_str(&mut v, name);
        Err(string_of(v.as_slice()))
    }
}

/// The users a change of a chat concerns: the members of a new or deleted
/// chat; for an update, nobody when the member list is unchanged, else the
/// members before and after.
pub open spec fn affected_users(old: Option<Chat>, new: Option<Chat>) -> Set<i64> {
    match (old, new) {
        (None, Some(n)) => n.user_ids@.to_set(),
        (Some(o), None) => o.user_ids@.to_set(),
        (Some(o), Some(n)) => if o.user_ids@ == n.user_ids@ {
            Set::empty()
        } else {
            o.user_ids@.to_set().union(n.user_ids@.to_set())
        },
        (None, None) => Set::empty(),
    }
}

/// Who a change of a chat concerns, member by member: every member of a new
/// or deleted chat; for an update that changes the member list, exactly the
/// users who were members before or are members after (so removed members
/// are told too); for an update that keeps the list, nobody.
pub proof fn lemma_affected_users_members(old: Option<Chat>, new: Option<Chat>)
    ensures
        match (old, new) {
            (None, Some(n)) => forall|x: i64|
                #[trigger] affected_users(old, new).contains(x) <==> n.user_ids@.contains(x),
            (Some(o), None) => forall|x: i64|
                #[trigger] affected_users(old, new).contains(x) <==> o.user_ids@.contains(x),
            (Some(o), Some(n)) => (o.user_ids@ == n.user_ids@ ==> affected_users(
                old,
                new,
            ).is_empty()) && (o.user_ids@ != n.user_ids@ ==> forall|x: i64|
                #[trigger] affected_users(old, new).contains(x) <==> (o.user_ids@.contains(x)
                    || n.user_ids@.contains(x))),
            (None, None) => affected_users(old, new).is_empty(),
        },
{
    match (old, new) {
        (Some(o), Some(n)) => {
            if o.user_ids@ == n.user_ids@ {
                assert(affected_users(old, new) =~= Set::empty());
            }
        },
        (None, None) => {
            assert(affected_users(old, new) =~= Set::empty());
        },
        _ => {},
    }
}

proof fn lemma_to_set_push(s: Seq<i64>, x: i64)
    ensures
        s.push(x).to_set() == s.to_set().insert(x),
{
    let t = s.push(x);
    assert forall|a: i64| t.to_set().contains(a) <==> s.to_set().insert(x).contains(a) by {
        if t.contains(a) {
            let k = choose|k: int| 0 <= k < t.len() && t[k] == a;
            if k < s.len() {
                assert(s[k] == a);
                assert(s.contains(a));
            }
        }
        if s.contains(a) {
            let k = choose|k: int| 0 <= k < s.len() && s[k] == a;
            assert(t[k] == a);
        }
        if a == x {
            assert(t[s.len() as int] == x);
        }
    }
    assert(t.to_set() =~= s.to_set().insert(x));
}

/// Adds the ids in `ids` to `set`.
fn insert_all(set: &mut HashSet<i64>, ids: &Vec<i64>)
    ensures
        final(set)@ == old(set)@.union(ids@.to_set()),
{
    broadcast use vstd::std_specs::hash::group_hash_axioms;

    let mut i: usize = 0;
    while i < ids.len()
        invariant
            i <= ids@.len(),
            set@ == old(set)@.union(ids@.take(i as int).to_set()),
        decreases ids@.len() - i,
    {
        set.insert(ids[i]);
        proof {
            assert(ids@.take(i + 1) =~= ids@.take(i as int).push(ids@[i as int]));
            lemma_to_set_push(ids@.take(i as int), ids@[i as int]);
        }
        i = i + 1;
        proof {
            assert(set@ =~= old(set)@.union(ids@.take(i as int).to_set()));
        }
    }
    assert(ids@.take(ids@.len() as int) =~= ids@);
}

fn ids_equal(a: &Vec<i64>, b: &Vec<i64>) -> (r: bool)
    ensures
        r == (a@ == b@),
{
    if a.len() != b.len() {
        return false;
    }
    let mut i: usize = 0;
    while i < a.len()
        invariant
            a@.len() == b@.len(),
            i <= a@.len(),
            forall|j: int| 0 <= j < i ==> a@[j] == b@[j],
        decreases a@.len() - i,
    {
        if a[i] != b[i] {
            return false;
        }
        i = i + 1;
    }
    assert(a@ =~= b@);
    true
}

/// The ids of the users a change of a chat concerns.
pub fn get_effected_chat_user_ids(old: Option<&Chat>, new: Option<&Chat>) -> (r: HashSet<i64>)
    ensures
        match (old, new) {
            (None, Some(n)) => forall|x: i64| #[trigger] r@.contains(x) <==> n.user_ids@.contains(x),
            (Some(o), None) => forall|x: i64| #[trigger] r@.contains(x) <==> o.user_ids@.contains(x),
            (Some(o), Some(n)) => (o.user_ids@ == n.user_ids@ ==> r@.is_empty()) && (o.user_ids@
                != n.user_ids@ ==> forall|x: i64| #[trigger]
                r@.contains(x) <==> (o.user_ids@.contains(x) || n.user_ids@.contains(x))),
            (None, None) => r@.is_empty(),
        },
        r@ == affected_users(
            match old {
                Some(c) => Some(*c),
                None => None,
            },
            match new {
                Some(c) => Some(*c),
                None => None,
            },
        ),
{
    broadcast use vstd::std_specs::hash::group_hash_axioms;

    let mut ids: HashSet<i64> = HashSet::new();
    match (old, new) {
        (None, Some(new_chat)) => {
            insert_all(&mut ids, &new_chat.user_ids);
        },
        (Some(old_chat), None) => {
            insert_all(&mut ids, &old_chat.user_ids);
        },
        (Some(old_chat), Some(new_chat)) => {
            if !ids_equal(&old_chat.user_ids, &new_chat.user_ids) {
                insert_all(&mut ids, &old_chat.user_ids);
                insert_all(&mut ids, &new_chat.user_ids);
            }
        },
        (None, None) => {},
    }
    proof {
        assert(Set::<i64>::empty().union(Seq::<i64>::empty().to_set()) =~= Set::<i64>::empty());
    }
    ids
}

/// The operation named in a `chat_updated` payload, without regard to case:
/// the text folded with `str::to_lowercase` is the word.
pub open spec fn op_is(op: Seq<char>, word: Seq<char>) -> bool {
    lowercase_of(op) == word
}

/// Which of the operations `insert`, `update` and `delete` the text names.
pub fn op_is_insert_update_delete(op: &str) -> (r: (bool, bool, bool))
    ensures
        r.0 == op_is(op@, "insert"@),
        r.1 == op_is(op@, "update"@),
        r.2 == op_is(op@, "delete"@),
{
    proof {
        reveal_strlit("insert");
        reveal_strlit("update");
        reveal_strlit("delete");
    }
    let lower = to_lowercase(op);
    (str_is(lower.as_str(), "insert"), str_is(lower.as_str(), "update"), str_is(lower.as_str(), "delete"))
}

/// The event a change of a chat makes, given the lower-case form `lower` of
/// its operation `op`: `insert` a new chat, `update` users added to a chat,
/// `delete` users removed from it; other operations are refused, naming `op`
/// as given.
pub fn event_of_op(lower: &str, op: &str, old: Option<Chat>, new: Option<Chat>) -> (r: Result<
    AppEvent,
    String,
>)
    requires
        lower@ == "insert"@ ==> new is Some,
        lower@ == "update"@ ==> new is Some,
        lower@ == "delete"@ ==> old is Some,
    ensures
        lower@ == "insert"@ ==> r == Ok::<AppEvent, String>(AppEvent::NewChat(new.unwrap())),
        lower@ == "update"@ ==> r == Ok::<AppEvent, String>(AppEvent::AddToChat(new.unwrap())),
        lower@ == "delete"@ ==> r == Ok::<AppEvent, String>(AppEvent::RemoveFromChat(old.unwrap())),
        lower@ != "insert"@ && lower@ != "update"@ && lower@ != "delete"@ ==> (r matches Err(e) && e@
            == "Invalid operation: "@ + op@),
{
    proof {
        reveal_strlit("insert");
        reveal_strlit("update");
        reveal_strlit("delete");
        assert("insert"@[0] != "update"@[0] && "insert"@[0] != "delete"@[0] && "update"@[0]
            != "delete"@[0]);
    }
    if str_is(lower, "insert") {
        Ok(AppEvent::NewChat(new.unwrap()))
    } else if str_is(lower, "update") {
        Ok(AppEvent::AddToChat(new.unwrap()))
    } else if str_is(lower, "delete") {
        Ok(AppEvent::RemoveFromChat(old.unwrap()))
    } else {
        let mut v = chars_of("Invalid operation: ");
        extend_str(&mut v, op);
        Err(string_of(v.as_slice()))
    }
}

impl Notification {
    /// The event of a `chat_updated` payload: `insert` makes a new chat,
    /// `update` adds users to a chat, `delete` removes them; it goes to the
    /// users the change concerns. Other operations are refused.
    pub fn from_chat_updated(payload: ChatUpdated) -> (r: Result<Notification, String>)
        requires
            op_is(payload.op@, "insert"@) ==> payload.new is Some,
            op_is(payload.op@, "update"@) ==> payload.new is Some,
            op_is(payload.op@, "delete"@) ==> payload.old is Some,
        ensures
            op_is(payload.op@, "insert"@) ==> (r matches Ok(n) && n.user_ids@ == affected_users(
                payload.old,
                payload.new,
            ) && *n.event == AppEvent::NewChat(payload.new.unwrap())),
            op_is(payload.op@, "update"@) ==> (r matches Ok(n) && n.user_ids@ == affected_users(
                payload.old,
                payload.new,
            ) && *n.event == AppEvent::AddToChat(payload.new.unwrap())),
            op_is(payload.op@, "delete"@) ==> (r matches Ok(n) && n.user_ids@ == affected_users(
                payload.old,
                payload.new,
            ) && *n.event == AppEvent::RemoveFromChat(payload.old.unwrap())),
            !op_is(payload.op@, "insert"@) && !op_is(payload.op@, "update"@) && !op_is(
                payload.op@,
                "delete"@,
            ) ==> (r matches Err(e) && e@ == "Invalid operation: "@ + payload.op@),
    {
        proof {
            reveal_strlit("insert");
            reveal_strlit("update");
            reveal_strlit("delete");
        }
        let user_ids = get_effected_chat_user_ids(payload.old.as_ref(), payload.new.as_ref());
        let ChatUpdated { op, old, new } = payload;
        let lower = to_lowercase(op.as_str());
        match event_of_op(lower.as_str(), op.as_str(), old, new) {
            Ok(event) => Ok(Notification { user_ids, event: Arc::new(event) }),
            Err(e) => Err(e),
        }
    }

    /// The event of a `chat_message_created` payload: the new message, for
    /// the users listed with it.
    pub fn from_message_created(payload: ChatMessageCreated) -> (n: Notification)
        ensures
            n.user_ids@ == payload.user_ids@.to_set(),
            *n.event == AppEvent::NewMessage(payload.message),
    {
        broadcast use vstd::std_specs::hash::group_hash_axioms;

        let mut user_ids: HashSet<i64> = HashSet::new();
        insert_all(&mut user_ids, &payload.user_ids);
        proof {
            assert(Set::<i64>::empty().union(payload.user_ids@.to_set()) =~= payload.user_ids@.to_set());
        }
        Notification { user_ids, event: Arc::new(AppEvent::NewMessage(payload.message)) }
    }
}

} // verus!
