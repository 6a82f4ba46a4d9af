use vstd::prelude::*;
use vstd::string::*;
use crate::clock::{now_millis, Timestamp};
use crate::error::ServiceError;
use crate::ids::{canonical_id, fresh_object_id, is_canonical_id, is_id_text, parse_record_id};
use crate::message::{
    attachments_view, created_message, messages_view, new_message, AddReactionRequest,
    CreateMessageRequest, Message, MessageQueryParams, MessageView, MessagesResponse,
    UpdateMessageRequest,
};
use crate::message_store::{
    apply_to_id, delete_stamp, message_with_id, edit_stamp, insert_ordered, newest_matching, oldest_matching,
    pin_stamp, react_stamp, unreact_stamp, visible_message, with_id, MessageFilter,
    MessageFilterView, MessageStore, MessageUpdate, ThreadScope, ThreadScopeView,
};
use crate::paging::{effective_limit, limit_of, page_room};
use crate::text::{copy_opt, opt_view, strings_view};

verus! {

/// The cursor of a page: the identifier of its last message, if any.
pub open spec fn cursor_of(ms: Seq<MessageView>) -> Option<Seq<char>> {
    if ms.len() == 0 {
        None
    } else {
        ms.last().id
    }
}

/// The filter of a general listing.
pub open spec fn list_filter(channel_id: Option<Seq<char>>, user_id: Option<Seq<char>>) -> MessageFilterView {
    MessageFilterView { channel_id, user_id, thread: ThreadScopeView::Any }
}

/// The filter of a channel's top-level listing.
pub open spec fn channel_filter(channel_id: Seq<char>) -> MessageFilterView {
    MessageFilterView { channel_id: Some(channel_id), user_id: None, thread: ThreadScopeView::TopLevel }
}

/// The filter of a thread's listing.
pub open spec fn thread_filter(thread_id: Seq<char>) -> MessageFilterView {
    MessageFilterView { channel_id: None, user_id: None, thread: ThreadScopeView::Within(thread_id) }
}

/// A page of `messages` taken with page size `limit`. `has_more` says only
/// that the page is full.
pub fn page_response(messages: Vec<Message>, limit: i64, with_cursor: bool) -> (r: MessagesResponse)
    ensures
        r.messages@ == messages@,
        r.has_more == (messages@.len() == limit as int),
        opt_view(r.cursor) == if with_cursor {
            cursor_of(messages_view(messages@))
        } else {
            None
        },
{
    let n = messages.len();
    let has_more = limit >= 0 && n as u64 == limit as u64;
    let cursor = if with_cursor && n > 0 {
        assert(messages_view(messages@).last() == messages@[n - 1]@);
        copy_opt(&messages[n - 1].id)
    } else {
        None
    };
    MessagesResponse { messages, has_more, cursor }
}

/// Creates a text message from `req`, stamped with the current time and a
/// fresh identifier.
pub fn create_message(store: &mut MessageStore, req: CreateMessageRequest) -> (r: Result<Message, ServiceError>)
    requires
        old(store).wf(),
    ensures
        final(store).wf(),
        r matches Ok(m) ==> {
            &&& m@.id matches Some(id) && is_canonical_id(id) && id.len() > 0
            &&& m@.created_at == m@.updated_at
            &&& m@ == with_id(
                created_message(
                    req.channel_id@,
                    req.user_id@,
                    req.content@,
                    opt_view(req.thread_id),
                    opt_view(req.parent_message_id),
                    attachments_view(req.attachments@),
                    strings_view(req.mentions@),
                    m@.created_at,
                ),
                m@.id->0,
            )
            &&& final(store)@ == insert_ordered(old(store)@, m@)
        },
        r matches Err(e) ==> e is StorageFailure && final(store)@ == old(store)@,
        r is Err ==> exists|k: Seq<char>|
            is_canonical_id(k) && #[trigger] message_with_id(old(store)@, k) is Some,
        old(store)@.len() == 0 ==> r is Ok,
{
    let now = now_millis();
    let id = fresh_object_id();
    let msg = new_message(req, now);
    store.insert(msg, id)
}

/// The message named by `id`, unless it is soft-deleted.
pub fn get_message(store: &MessageStore, id: &str) -> (r: Result<Message, ServiceError>)
    requires
        store.wf(),
    ensures
        !is_id_text(id@) ==> r == Err::<Message, ServiceError>(ServiceError::InvalidArgument),
        is_id_text(id@) ==> (r is Ok <==> visible_message(store@, canonical_id(id@)) is Some),
        r matches Ok(m) ==> visible_message(store@, canonical_id(id@)) == Some(m@),
        is_id_text(id@) && r is Err ==> r == Err::<Message, ServiceError>(ServiceError::NotFound),
{
    let key = parse_record_id(id)?;
    match store.find_visible(&key) {
        Some(m) => Ok(m),
        None => Err(ServiceError::NotFound),
    }
}

/// The newest messages that match the query's channel and author, up to
/// the page size in force.
pub fn list_messages(store: &MessageStore, query: &MessageQueryParams) -> (r: MessagesResponse)
    requires
        store.wf(),
    ensures
        messages_view(r.messages@) == newest_matching(
            store@,
            list_filter(opt_view(query.channel_id), opt_view(query.user_id)),
            page_room(limit_of(query.limit)),
        ),
        r.messages@.len() <= page_room(limit_of(query.limit)),
        r.has_more == (r.messages@.len() == limit_of(query.limit)),
        opt_view(r.cursor) == cursor_of(messages_view(r.messages@)),
        forall|i: int, j: int|
            0 <= i < j < r.messages@.len() ==> (#[trigger] r.messages@[i]).created_at
                >= (#[trigger] r.messages@[j]).created_at,
{
    let limit = effective_limit(query.limit);
    let filter = MessageFilter {
        channel_id: copy_opt(&query.channel_id),
        user_id: copy_opt(&query.user_id),
        thread: ThreadScope::Any,
    };
    let messages = store.select_newest(&filter, limit);
    proof {
        let n = page_room(limit as int);
        crate::message_store::lemma_newest_len(store@, filter@, n);
        crate::message_store::lemma_newest_descending(store@, filter@, n);
        assert forall|i: int, j: int| 0 <= i < j < messages@.len() implies (#[trigger] messages@[i]).created_at
            >= (#[trigger] messages@[j]).created_at by {
            assert(messages_view(messages@)[i] == messages@[i]@);
            assert(messages_view(messages@)[j] == messages@[j]@);
        }
    }
    page_response(messages, limit, true)
}

/// The newest top-level messages of a channel.
pub fn get_channel_messages(store: &MessageStore, channel_id: &str, query: &MessageQueryParams) -> (r: MessagesResponse)
    requires
        store.wf(),
    ensures
        messages_view(r.messages@) == newest_matching(
            store@,
            channel_filter(channel_id@),
            page_room(limit_of(query.limit)),
        ),
        r.messages@.len() <= page_room(limit_of(query.limit)),
        r.has_more == (r.messages@.len() == limit_of(query.limit)),
        opt_view(r.cursor) == cursor_of(messages_view(r.messages@)),
        forall|i: int, j: int|
            0 <= i < j < r.messages@.len() ==> (#[trigger] r.messages@[i]).created_at
                >= (#[trigger] r.messages@[j]).created_at,
        forall|i: int| 0 <= i < r.messages@.len() ==> (#[trigger] r.messages@[i]).thread_id is None,
{
    let limit = effective_limit(query.limit);
    let filter = MessageFilter {
        channel_id: Some(String::from_str(channel_id)),
        user_id: None,
        thread: ThreadScope::TopLevel,
    };
    let messages = store.select_newest(&filter, limit);
    proof {
        let n = page_room(limit as int);
        crate::message_store::lemma_newest_len(store@, filter@, n);
        crate::message_store::lemma_newest_descending(store@, filter@, n);
        crate::message_store::lemma_newest_matches(store@, filter@, n);
        assert forall|i: int| 0 <= i < messages@.len() implies (#[trigger] messages@[i]).thread_id is None by {
            assert(messages_view(messages@)[i] == messages@[i]@);
        }
        assert forall|i: int, j: int| 0 <= i < j < messages@.len() implies (#[trigger] messages@[i]).created_at
            >= (#[trigger] messages@[j]).created_at by {
            assert(messages_view(messages@)[i] == messages@[i]@);
            assert(messages_view(messages@)[j] == messages@[j]@);
        }
    }
    page_response(messages, limit, true)
}

/// The earliest messages of a thread, in order of creation; no cursor.
pub fn get_thread_messages(store: &MessageStore, thread_id: &str, query: &MessageQueryParams) -> (r: MessagesResponse)
    requires
        store.wf(),
    ensures
        messages_view(r.messages@) == oldest_matching(
            store@,
            thread_filter(thread_id@),
            page_room(limit_of(query.limit)),
        ),
        r.messages@.len() <= page_room(limit_of(query.limit)),
        r.has_more == (r.messages@.len() == limit_of(query.limit)),
        r.cursor is None,
        forall|i: int, j: int|
            0 <= i < j < r.messages@.len() ==> (#[trigger] r.messages@[i]).created_at
                <= (#[trigger] r.messages@[j]).created_at,
        forall|i: int|
            0 <= i < r.messages@.len() ==> opt_view((#[trigger] r.messages@[i]).thread_id) == Some(thread_id@),
{
    let limit = effective_limit(query.limit);
    let filter = MessageFilter {
        channel_id: None,
        user_id: None,
        thread: ThreadScope::Within(String::from_str(thread_id)),
    };
    let messages = store.select_oldest(&filter, limit);
    proof {
        let n = page_room(limit as int);
        crate::message_store::lemma_oldest_len(store@, filter@, n);
        crate::message_store::lemma_oldest_ascending(store@, filter@, n);
        crate::message_store::lemma_oldest_matches(store@, filter@, n);
        assert forall|i: int| 0 <= i < messages@.len() implies opt_view((#[trigger] messages@[i]).thread_id) == Some(thread_id@) by {
            assert(messages_view(messages@)[i] == messages@[i]@);
        }
        assert forall|i: int, j: int| 0 <= i < j < messages@.len() implies (#[trigger] messages@[i]).created_at
            <= (#[trigger] messages@[j]).created_at by {
            assert(messages_view(messages@)[i] == messages@[i]@);
            assert(messages_view(messages@)[j] == messages@[j]@);
        }
    }
    page_response(messages, limit, false)
}

/// Edits the message named by `id`: the content is replaced when the
/// request carries one, and the edit and update times are stamped even when
/// it does not. No message with that identifier is no error.
pub fn update_message(store: &mut MessageStore, id: &str, req: UpdateMessageRequest) -> (r: Result<(), ServiceError>)
    requires
        old(store).wf(),
    ensures
        final(store).wf(),
        r is Ok <==> is_id_text(id@),
        r matches Err(e) ==> e == ServiceError::InvalidArgument && final(store)@ == old(store)@,
        r is Ok ==> exists|now: Timestamp|
            final(store)@ == apply_to_id(old(store)@, canonical_id(id@), #[trigger] edit_stamp(opt_view(req.content), now)),
{
    let key = parse_record_id(id)?;
    let now = now_millis();
    let u = MessageUpdate::edit(req.content);
    store.apply_update(&key, &u, now);
    Ok(())
}

/// Soft-deletes the message named by `id`. Repeating it re-stamps the
/// deletion time; no message with that identifier is no error.
pub fn delete_message(store: &mut MessageStore, id: &str) -> (r: Result<(), ServiceError>)
    requires
        old(store).wf(),
    ensures
        final(store).wf(),
        r is Ok <==> is_id_text(id@),
        r matches Err(e) ==> e == ServiceError::InvalidArgument && final(store)@ == old(store)@,
        r is Ok ==> exists|now: Timestamp|
            final(store)@ == apply_to_id(old(store)@, canonical_id(id@), #[trigger] delete_stamp(now)),
{
    let key = parse_record_id(id)?;
    let now = now_millis();
    store.apply_update(&key, &MessageUpdate::delete(), now);
    Ok(())
}

/// Adds the reaction of `req.user_id` with `req.emoji` to the message named
/// by `id`, as a new entry unless an identical one is there.
pub fn add_reaction(store: &mut MessageStore, id: &str, req: AddReactionRequest) -> (r: Result<(), ServiceError>)
    requires
        old(store).wf(),
    ensures
        final(store).wf(),
        r is Ok <==> is_id_text(id@),
        r matches Err(e) ==> e == ServiceError::InvalidArgument && final(store)@ == old(store)@,
        r is Ok ==> exists|now: Timestamp|
            final(store)@ == apply_to_id(
                old(store)@,
                canonical_id(id@),
                #[trigger] react_stamp(req.emoji@, req.user_id@, now),
            ),
{
    let key = parse_record_id(id)?;
    let now = now_millis();
    let u = MessageUpdate::react(req);
    store.apply_update(&key, &u, now);
    Ok(())
}

/// Removes every reaction with `emoji` from the message named by `id`,
/// whoever added it.
pub fn remove_reaction(store: &mut MessageStore, id: &str, emoji: &str) -> (r: Result<(), ServiceError>)
    requires
        old(store).wf(),
    ensures
        final(store).wf(),
        r is Ok <==> is_id_text(id@),
        r matches Err(e) ==> e == ServiceError::InvalidArgument && final(store)@ == old(store)@,
        r is Ok ==> exists|now: Timestamp|
            final(store)@ == apply_to_id(old(store)@, canonical_id(id@), #[trigger] unreact_stamp(emoji@, now)),
{
    let key = parse_record_id(id)?;
    let now = now_millis();
    let u = MessageUpdate::unreact(String::from_str(emoji));
    store.apply_update(&key, &u, now);
    Ok(())
}

/// Pins the message named by `id`.
pub fn pin_message(store: &mut MessageStore, id: &str) -> (r: Result<(), ServiceError>)
    requires
        old(store).wf(),
    ensures
        final(store).wf(),
        r is Ok <==> is_id_text(id@),
        r matches Err(e) ==> e == ServiceError::InvalidArgument && final(store)@ == old(store)@,
        r is Ok ==> exists|now: Timestamp|
            final(store)@ == apply_to_id(old(store)@, canonical_id(id@), #[trigger] pin_stamp(true, now)),
{
    let key = parse_record_id(id)?;
    let now = now_millis();
    store.apply_update(&key, &MessageUpdate::pin(true), now);
    Ok(())
}

/// Unpins the message named by `id`.
pub fn unpin_message(store: &mut MessageStore, id: &str) -> (r: Result<(), ServiceError>)
    requires
        old(store).wf(),
    ensures
        final(store).wf(),
        r is Ok <==> is_id_text(id@),
        r matches Err(e) ==> e == ServiceError::InvalidArgument && final(store)@ == old(store)@,
        r is Ok ==> exists|now: Timestamp|
            final(store)@ == apply_to_id(old(store)@, canonical_id(id@), #[trigger] pin_stamp(false, now)),
{
    let key = parse_record_id(id)?;
    let now = now_millis();
    store.apply_update(&key, &MessageUpdate::pin(false), now);
    Ok(())
}

} // verus!
