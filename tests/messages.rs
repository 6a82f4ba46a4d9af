use quckchat_records::message_store::MessageUpdate;
use quckchat_records::error::ServiceError;
use quckchat_records::message::{
    add_reaction_entry, new_message, remove_emoji_entries, AddReactionRequest, CreateMessageRequest,
    MessageQueryParams, MessageType, Reaction, UpdateMessageRequest,
};
use quckchat_records::message_service::{
    add_reaction, create_message, delete_message, get_channel_messages, get_message, get_thread_messages,
    list_messages, page_response, pin_message, remove_reaction, unpin_message, update_message,
};
use quckchat_records::message_store::MessageStore;

fn request(channel: &str, user: &str, content: &str, thread: Option<&str>) -> CreateMessageRequest {
    CreateMessageRequest {
        channel_id: channel.to_string(),
        user_id: user.to_string(),
        content: content.to_string(),
        thread_id: thread.map(|t| t.to_string()),
        parent_message_id: None,
        attachments: vec![],
        mentions: vec![],
    }
}

fn query(channel: Option<&str>, limit: Option<i64>) -> MessageQueryParams {
    MessageQueryParams {
        channel_id: channel.map(|c| c.to_string()),
        user_id: None,
        before: None,
        after: None,
        limit,
    }
}

fn id_of(n: u32) -> String {
    format!("{:024x}", n)
}

fn seeded(entries: &[(&str, Option<&str>, i64)]) -> MessageStore {
    let mut store = MessageStore::new();
    for (n, (channel, thread, at)) in entries.iter().enumerate() {
        let msg = new_message(request(channel, "u", &format!("m{}", n), *thread), *at);
        store.insert(msg, id_of(n as u32 + 1)).unwrap();
    }
    store
}

#[test]
fn create_get_delete_scenario() {
    let mut store = MessageStore::new();
    let created = create_message(&mut store, request("c1", "u1", "hi", None)).unwrap();
    let id = created.id.clone().unwrap();
    let got = get_message(&store, &id).unwrap();
    assert_eq!(got.content, "hi");
    assert!(!got.is_pinned);
    assert!(got.reactions.is_empty());
    delete_message(&mut store, &id).unwrap();
    assert_eq!(get_message(&store, &id).unwrap_err(), ServiceError::NotFound);
    let page = list_messages(&store, &query(Some("c1"), None));
    assert!(page.messages.iter().all(|m| m.id.as_deref() != Some(id.as_str())));
    assert!(page.messages.is_empty());
}

#[test]
fn created_message_has_id_and_equal_timestamps() {
    let mut store = MessageStore::new();
    let m = create_message(&mut store, request("c1", "u1", "hello", Some("t1"))).unwrap();
    let id = m.id.clone().unwrap();
    assert_eq!(id.len(), 24);
    assert!(id.chars().all(|c| c.is_ascii_hexdigit() && !c.is_ascii_uppercase()));
    assert_eq!(m.created_at, m.updated_at);
    assert!(m.created_at > 1_500_000_000_000);
    assert_eq!(m.message_type, MessageType::Text);
    assert_eq!(m.thread_id.as_deref(), Some("t1"));
    assert!(m.edited_at.is_none() && m.deleted_at.is_none());
    assert_eq!(store.len(), 1);
}

#[test]
fn two_creations_get_distinct_ids() {
    let mut store = MessageStore::new();
    let a = create_message(&mut store, request("c1", "u1", "a", None)).unwrap();
    let b = create_message(&mut store, request("c1", "u1", "b", None)).unwrap();
    assert_ne!(a.id, b.id);
    assert_eq!(store.len(), 2);
}

#[test]
fn malformed_id_is_invalid_argument() {
    let mut store = MessageStore::new();
    assert_eq!(get_message(&store, "xyz").unwrap_err(), ServiceError::InvalidArgument);
    assert_eq!(get_message(&store, "00000000000000000000000g").unwrap_err(), ServiceError::InvalidArgument);
    assert_eq!(delete_message(&mut store, "").unwrap_err(), ServiceError::InvalidArgument);
    assert_eq!(pin_message(&mut store, "123").unwrap_err(), ServiceError::InvalidArgument);
    assert_eq!(ServiceError::InvalidArgument.status_code(), 400);
}

#[test]
fn unknown_id_is_not_found_but_mutations_succeed() {
    let mut store = MessageStore::new();
    let id = id_of(9);
    assert_eq!(get_message(&store, &id).unwrap_err(), ServiceError::NotFound);
    assert!(delete_message(&mut store, &id).is_ok());
    assert!(pin_message(&mut store, &id).is_ok());
    assert_eq!(store.len(), 0);
}

#[test]
fn upper_case_id_finds_the_record() {
    let store = seeded(&[("c1", None, 10)]);
    let upper = "00000000000000000000000A".to_string();
    let store2 = {
        let mut s = MessageStore::new();
        s.insert(new_message(request("c1", "u", "x", None), 1), id_of(10)).unwrap();
        s
    };
    assert_eq!(get_message(&store2, &upper).unwrap().content, "x");
    assert_eq!(get_message(&store, &id_of(1)).unwrap().content, "m0");
}

#[test]
fn duplicate_id_is_storage_failure() {
    let mut store = seeded(&[("c1", None, 10)]);
    let err = store.insert(new_message(request("c1", "u", "x", None), 11), id_of(1)).unwrap_err();
    assert!(matches!(err, ServiceError::StorageFailure(_)));
    assert_eq!(err.status_code(), 500);
    assert_eq!(store.len(), 1);
}

#[test]
fn reactions_by_two_users_then_removed() {
    let mut store = MessageStore::new();
    let m = create_message(&mut store, request("c1", "u1", "hi", None)).unwrap();
    let id = m.id.unwrap();
    let thumbs = "\u{1F44D}".to_string();
    add_reaction(&mut store, &id, AddReactionRequest { user_id: "user_a".to_string(), emoji: thumbs.clone() }).unwrap();
    add_reaction(&mut store, &id, AddReactionRequest { user_id: "user_b".to_string(), emoji: thumbs.clone() }).unwrap();
    let got = get_message(&store, &id).unwrap();
    assert_eq!(got.reactions.len(), 2);
    assert_eq!(got.reactions[0].user_ids, vec!["user_a".to_string()]);
    assert_eq!(got.reactions[1].user_ids, vec!["user_b".to_string()]);
    assert!(got.reactions.iter().all(|r| r.count == 1));
    remove_reaction(&mut store, &id, &thumbs).unwrap();
    let got = get_message(&store, &id).unwrap();
    assert_eq!(got.reactions.iter().filter(|r| r.emoji == thumbs).count(), 0);
}

#[test]
fn same_reaction_twice_is_one_entry() {
    let mut rs: Vec<Reaction> = vec![];
    let e = "ok".to_string();
    let u = "u1".to_string();
    add_reaction_entry(&mut rs, &e, &u);
    add_reaction_entry(&mut rs, &e, &u);
    assert_eq!(rs.len(), 1);
    add_reaction_entry(&mut rs, &"no".to_string(), &u);
    assert_eq!(rs.len(), 2);
}

#[test]
fn remove_keeps_other_emoji_in_order() {
    let mut rs: Vec<Reaction> = vec![];
    for (e, u) in [("a", "1"), ("b", "1"), ("a", "2"), ("c", "3")] {
        add_reaction_entry(&mut rs, &e.to_string(), &u.to_string());
    }
    let kept = remove_emoji_entries(&rs, &"a".to_string());
    let emojis: Vec<&str> = kept.iter().map(|r| r.emoji.as_str()).collect();
    assert_eq!(emojis, vec!["b", "c"]);
}

#[test]
fn pin_and_unpin_are_idempotent() {
    let mut store = MessageStore::new();
    let id = create_message(&mut store, request("c1", "u1", "hi", None)).unwrap().id.unwrap();
    pin_message(&mut store, &id).unwrap();
    assert!(get_message(&store, &id).unwrap().is_pinned);
    pin_message(&mut store, &id).unwrap();
    assert!(get_message(&store, &id).unwrap().is_pinned);
    unpin_message(&mut store, &id).unwrap();
    unpin_message(&mut store, &id).unwrap();
    assert!(!get_message(&store, &id).unwrap().is_pinned);
}

#[test]
fn update_without_content_still_stamps_edit() {
    let mut store = seeded(&[("c1", None, 10)]);
    let id = id_of(1);
    update_message(&mut store, &id, UpdateMessageRequest { content: None }).unwrap();
    let got = get_message(&store, &id).unwrap();
    assert_eq!(got.content, "m0");
    assert!(got.edited_at.is_some());
    assert!(got.updated_at > 10);
    update_message(&mut store, &id, UpdateMessageRequest { content: Some("new".to_string()) }).unwrap();
    assert_eq!(get_message(&store, &id).unwrap().content, "new");
}

#[test]
fn list_is_newest_first_and_capped() {
    let entries: Vec<(&str, Option<&str>, i64)> = (0..120).map(|i| ("c1", None, i as i64)).collect();
    let store = seeded(&entries);
    let page = list_messages(&store, &query(None, None));
    assert_eq!(page.messages.len(), 50);
    assert!(page.has_more);
    assert_eq!(page.messages[0].created_at, 119);
    assert_eq!(page.cursor, page.messages[49].id);
    let page = list_messages(&store, &query(None, Some(500)));
    assert_eq!(page.messages.len(), 100);
    let page = list_messages(&store, &query(None, Some(3)));
    let times: Vec<i64> = page.messages.iter().map(|m| m.created_at).collect();
    assert_eq!(times, vec![119, 118, 117]);
    let page = list_messages(&store, &query(None, Some(0)));
    assert!(page.messages.is_empty());
    assert!(page.cursor.is_none());
}

#[test]
fn list_filters_by_channel_and_user() {
    let mut store = seeded(&[("c1", None, 1), ("c2", None, 2)]);
    let mut req = request("c1", "bob", "x", None);
    req.mentions = vec!["alice".to_string()];
    store.insert(new_message(req, 3), id_of(50)).unwrap();
    let page = list_messages(&store, &query(Some("c1"), None));
    assert_eq!(page.messages.len(), 2);
    assert!(!page.has_more);
    let q = MessageQueryParams { channel_id: None, user_id: Some("bob".to_string()), before: None, after: None, limit: None };
    let page = list_messages(&store, &q);
    assert_eq!(page.messages.len(), 1);
    assert_eq!(page.messages[0].mentions, vec!["alice".to_string()]);
}

#[test]
fn channel_listing_skips_threads_newest_first() {
    let store = seeded(&[("c1", None, 5), ("c1", Some("t1"), 6), ("c1", None, 7), ("c2", None, 8), ("c1", None, 3)]);
    let page = get_channel_messages(&store, "c1", &query(None, None));
    let times: Vec<i64> = page.messages.iter().map(|m| m.created_at).collect();
    assert_eq!(times, vec![7, 5, 3]);
    assert!(page.messages.iter().all(|m| m.thread_id.is_none()));
    assert_eq!(page.cursor, page.messages[2].id);
}

#[test]
fn thread_listing_oldest_first_without_cursor() {
    let store = seeded(&[("c1", Some("t1"), 9), ("c1", Some("t1"), 4), ("c1", None, 5), ("c1", Some("t2"), 6), ("c1", Some("t1"), 7)]);
    let page = get_thread_messages(&store, "t1", &query(None, Some(2)));
    let times: Vec<i64> = page.messages.iter().map(|m| m.created_at).collect();
    assert_eq!(times, vec![4, 7]);
    assert!(page.has_more);
    assert!(page.cursor.is_none());
}

#[test]
fn page_response_marks_full_pages() {
    let store = seeded(&[("c1", None, 1), ("c1", None, 2)]);
    let full = page_response(store.select_newest(&all_filter(), 2), 2, true);
    assert!(full.has_more);
    assert_eq!(full.cursor, Some(id_of(1)));
    let short = page_response(store.select_newest(&all_filter(), 5), 5, false);
    assert!(!short.has_more);
    assert!(short.cursor.is_none());
}

fn all_filter() -> quckchat_records::message_store::MessageFilter {
    quckchat_records::message_store::MessageFilter {
        channel_id: None,
        user_id: None,
        thread: quckchat_records::message_store::ThreadScope::Any,
    }
}

#[test]
fn update_values_are_exact() {
    let e = MessageUpdate::edit(None);
    assert!(e.content.is_none() && e.stamp_edited && e.stamp_updated && !e.stamp_deleted);
    let d = MessageUpdate::delete();
    assert!(d.stamp_deleted && !d.stamp_updated && !d.stamp_edited && d.pinned.is_none());
    let p = MessageUpdate::pin(false);
    assert_eq!(p.pinned, Some(false));
    assert!(p.stamp_updated && !p.stamp_deleted);
    let r = MessageUpdate::react(AddReactionRequest { user_id: "u".to_string(), emoji: "x".to_string() });
    assert_eq!(r.react.as_ref().map(|q| q.emoji.as_str()), Some("x"));
    assert!(r.pull_emoji.is_none());
    let u = MessageUpdate::unreact("x".to_string());
    assert_eq!(u.pull_emoji.as_deref(), Some("x"));
    assert!(u.react.is_none());
}

#[test]
fn apply_update_stamps_given_time() {
    let mut store = seeded(&[("c1", None, 10)]);
    let key = id_of(1);
    store.apply_update(&key, &MessageUpdate::edit(Some("e".to_string())), 77);
    store.apply_update(&key, &MessageUpdate::pin(true), 88);
    let m = get_message(&store, &key).unwrap();
    assert_eq!(m.content, "e");
    assert_eq!(m.edited_at, Some(77));
    assert_eq!(m.updated_at, 88);
    assert!(m.is_pinned);
    store.apply_update(&key, &MessageUpdate::delete(), 99);
    assert_eq!(get_message(&store, &key).unwrap_err(), ServiceError::NotFound);
}

#[test]
fn reaction_entry_shape() {
    let e = quckchat_records::message::new_reaction_entry(&"x".to_string(), &"u".to_string());
    assert_eq!(e.emoji, "x");
    assert_eq!(e.user_ids, vec!["u".to_string()]);
    assert_eq!(e.count, 1);
}
