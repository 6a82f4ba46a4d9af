use vstd::prelude::*;
use crate::clock::Timestamp;
use crate::message::{
    add_reaction_entry, reactions_view, AddReactionRequest, Reaction, ReactionView, messages_view, remove_emoji_entries, with_reaction, without_emoji, Message,
    MessageView,
};
use crate::paging::page_room;
use crate::text::opt_view;

verus! {

/// Every stored message has an identifier, and no two share one.
pub open spec fn ids_unique(s: Seq<MessageView>) -> bool {
    &&& forall|i: int| 0 <= i < s.len() ==> (#[trigger] s[i]).id is Some
    &&& forall|i: int, j: int|
        0 <= i < s.len() && 0 <= j < s.len() && i != j ==> (#[trigger] s[i]).id != (#[trigger] s[j]).id
}

/// Stored messages are kept in non-decreasing order of creation time.
pub open spec fn creation_ordered(s: Seq<MessageView>) -> bool {
    forall|i: int, j: int|
        0 <= i < j < s.len() ==> (#[trigger] s[i]).created_at <= (#[trigger] s[j]).created_at
}

/// The stored message with identifier `key`, soft-deleted or not.
pub open spec fn message_with_id(s: Seq<MessageView>, key: Seq<char>) -> Option<MessageView>
    decreases s.len(),
{
    if s.len() == 0 {
        None
    } else if s[0].id == Some(key) {
        Some(s[0])
    } else {
        message_with_id(s.skip(1), key)
    }
}

/// The stored message with identifier `key`, unless it is soft-deleted.
pub open spec fn visible_message(s: Seq<MessageView>, key: Seq<char>) -> Option<MessageView> {
    match message_with_id(s, key) {
        Some(m) => if m.deleted_at is None {
            Some(m)
        } else {
            None
        },
        None => None,
    }
}

/// The message as stored under identifier `id`.
pub open spec fn with_id(m: MessageView, id: Seq<char>) -> MessageView {
    MessageView { id: Some(id), ..m }
}

/// `s` with `m` placed after every message created no later than it.
pub open spec fn insert_ordered(s: Seq<MessageView>, m: MessageView) -> Seq<MessageView>
    decreases s.len(),
{
    if s.len() == 0 {
        seq![m]
    } else if s.last().created_at <= m.created_at {
        s.push(m)
    } else {
        insert_ordered(s.drop_last(), m).push(s.last())
    }
}

/// `s` with `f` applied to the message whose identifier is `key`.
pub open spec fn apply_to_id(
    s: Seq<MessageView>,
    key: Seq<char>,
    f: spec_fn(MessageView) -> MessageView,
) -> Seq<MessageView> {
    s.map_values(|m: MessageView| if m.id == Some(key) { f(m) } else { m })
}

proof fn lemma_apply_at(
    s: Seq<MessageView>,
    key: Seq<char>,
    i: int,
    f: spec_fn(MessageView) -> MessageView,
)
    requires
        ids_unique(s),
        0 <= i < s.len(),
        s[i].id == Some(key),
    ensures
        apply_to_id(s, key, f) == s.update(i, f(s[i])),
{
    assert(apply_to_id(s, key, f) =~= s.update(i, f(s[i])));
}

proof fn lemma_apply_absent(s: Seq<MessageView>, key: Seq<char>, f: spec_fn(MessageView) -> MessageView)
    requires
        forall|j: int| 0 <= j < s.len() ==> (#[trigger] s[j]).id != Some(key),
    ensures
        apply_to_id(s, key, f) == s,
{
    assert(apply_to_id(s, key, f) =~= s);
}

proof fn lemma_insert_at(s: Seq<MessageView>, m: MessageView, p: int)
    requires
        0 <= p <= s.len(),
        forall|j: int| 0 <= j < p ==> (#[trigger] s[j]).created_at <= m.created_at,
        forall|j: int| p <= j < s.len() ==> (#[trigger] s[j]).created_at > m.created_at,
    ensures
        insert_ordered(s, m) == s.insert(p, m),
    decreases s.len(),
{
    if s.len() == 0 {
        assert(s.insert(p, m) =~= seq![m]);
    } else if s.last().created_at <= m.created_at {
        assert(p == s.len());
        assert(s.insert(p, m) =~= s.push(m));
    } else {
        let init = s.drop_last();
        lemma_insert_at(init, m, p);
        assert(s.insert(p, m) =~= init.insert(p, m).push(s.last()));
    }
}

/// Soft deletion: the deletion time is stamped (again, if already set).
pub open spec fn delete_stamp(now: Timestamp) -> spec_fn(MessageView) -> MessageView {
    |m: MessageView| MessageView { deleted_at: Some(now), ..m }
}

/// An edit: the content is replaced when one is given, and the edit and
/// update times are stamped either way.
pub open spec fn edit_stamp(content: Option<Seq<char>>, now: Timestamp) -> spec_fn(MessageView) -> MessageView {
    |m: MessageView|
        MessageView {
            content: match content {
                Some(c) => c,
                None => m.content,
            },
            edited_at: Some(now),
            updated_at: now,
            ..m
        }
}

/// Pinning (`flag` true) or unpinning (`flag` false).
pub open spec fn pin_stamp(flag: bool, now: Timestamp) -> spec_fn(MessageView) -> MessageView {
    |m: MessageView| MessageView { is_pinned: flag, updated_at: now, ..m }
}

/// A reaction by `user` with `emoji`.
pub open spec fn react_stamp(emoji: Seq<char>, user: Seq<char>, now: Timestamp) -> spec_fn(MessageView) -> MessageView {
    |m: MessageView| MessageView { reactions: with_reaction(m.reactions, emoji, user), updated_at: now, ..m }
}

/// Removal of every reaction with `emoji`.
pub open spec fn unreact_stamp(emoji: Seq<char>, now: Timestamp) -> spec_fn(MessageView) -> MessageView {
    |m: MessageView| MessageView { reactions: without_emoji(m.reactions, emoji), updated_at: now, ..m }
}

/// Which messages a listing takes with respect to threads.
#[derive(Debug)]
pub enum ThreadScope {
    /// Thread replies and top-level messages alike.
    Any,
    /// Only messages outside any thread.
    TopLevel,
    /// Only the messages of the given thread.
    Within(String),
}

/// The model of a [`ThreadScope`].
pub enum ThreadScopeView {
    Any,
    TopLevel,
    Within(Seq<char>),
}

impl View for ThreadScope {
    type V = ThreadScopeView;

    open spec fn view(&self) -> ThreadScopeView {
        match self {
            ThreadScope::Any => ThreadScopeView::Any,
            ThreadScope::TopLevel => ThreadScopeView::TopLevel,
            ThreadScope::Within(t) => ThreadScopeView::Within(t@),
        }
    }
}

/// A change to one message, field by field, as the storage layer applies
/// it. Stamps take the time at which the change is applied.
#[derive(Debug)]
pub struct MessageUpdate {
    /// New content, if any.
    pub content: Option<String>,
    /// Whether the edit time is stamped.
    pub stamp_edited: bool,
    /// Whether the update time is stamped.
    pub stamp_updated: bool,
    /// Whether the deletion time is stamped.
    pub stamp_deleted: bool,
    /// New pin flag, if any.
    pub pinned: Option<bool>,
    /// A reaction whose entry is added unless an identical one is there.
    pub react: Option<AddReactionRequest>,
    /// An emoji whose entries are all removed, after any addition.
    pub pull_emoji: Option<String>,
}

/// The model of a [`MessageUpdate`]; a reaction is (emoji, user).
pub struct MessageUpdateView {
    pub content: Option<Seq<char>>,
    pub stamp_edited: bool,
    pub stamp_updated: bool,
    pub stamp_deleted: bool,
    pub pinned: Option<bool>,
    pub react: Option<(Seq<char>, Seq<char>)>,
    pub pull_emoji: Option<Seq<char>>,
}

impl View for MessageUpdate {
    type V = MessageUpdateView;

    open spec fn view(&self) -> MessageUpdateView {
        MessageUpdateView {
            content: opt_view(self.content),
            stamp_edited: self.stamp_edited,
            stamp_updated: self.stamp_updated,
            stamp_deleted: self.stamp_deleted,
            pinned: self.pinned,
            react: match self.react {
                Some(r) => Some((r.emoji@, r.user_id@)),
                None => None,
            },
            pull_emoji: opt_view(self.pull_emoji),
        }
    }
}

/// A reaction list after an optional addition and then an optional removal.
pub open spec fn reactions_after(
    rs: Seq<ReactionView>,
    react: Option<(Seq<char>, Seq<char>)>,
    pull: Option<Seq<char>>,
) -> Seq<ReactionView> {
    let added = match react {
        Some(p) => with_reaction(rs, p.0, p.1),
        None => rs,
    };
    match pull {
        Some(e) => without_emoji(added, e),
        None => added,
    }
}

/// What applying `u` at time `now` does to a message.
pub open spec fn update_effect(u: MessageUpdateView, now: Timestamp) -> spec_fn(MessageView) -> MessageView {
    |m: MessageView|
        MessageView {
            content: match u.content {
                Some(c) => c,
                None => m.content,
            },
            edited_at: if u.stamp_edited {
                Some(now)
            } else {
                m.edited_at
            },
            updated_at: if u.stamp_updated {
                now
            } else {
                m.updated_at
            },
            deleted_at: if u.stamp_deleted {
                Some(now)
            } else {
                m.deleted_at
            },
            is_pinned: match u.pinned {
                Some(b) => b,
                None => m.is_pinned,
            },
            reactions: reactions_after(m.reactions, u.react, u.pull_emoji),
            ..m
        }
}

/// The update that changes nothing.
pub open spec fn no_update() -> MessageUpdateView {
    MessageUpdateView {
        content: None,
        stamp_edited: false,
        stamp_updated: false,
        stamp_deleted: false,
        pinned: None,
        react: None,
        pull_emoji: None,
    }
}

impl MessageUpdate {
    fn none() -> (r: MessageUpdate)
        ensures
            r@ == no_update(),
    {
        MessageUpdate {
            content: None,
            stamp_edited: false,
            stamp_updated: false,
            stamp_deleted: false,
            pinned: None,
            react: None,
            pull_emoji: None,
        }
    }

    /// An edit: new content when given; edit and update times stamped.
    pub fn edit(content: Option<String>) -> (r: MessageUpdate)
        ensures
            r@ == (MessageUpdateView {
                content: opt_view(content),
                stamp_edited: true,
                stamp_updated: true,
                ..no_update()
            }),
            forall|now: Timestamp| #[trigger] update_effect(r@, now) == edit_stamp(opt_view(content), now),
    {
        let ghost c = opt_view(content);
        let mut r = MessageUpdate::none();
        r.content = content;
        r.stamp_edited = true;
        r.stamp_updated = true;
        assert forall|now: Timestamp| #[trigger] update_effect(r@, now) == edit_stamp(c, now) by {
            assert(update_effect(r@, now) =~= edit_stamp(c, now));
        }
        r
    }

    /// A soft deletion: the deletion time is stamped.
    pub fn delete() -> (r: MessageUpdate)
        ensures
            r@ == (MessageUpdateView { stamp_deleted: true, ..no_update() }),
            forall|now: Timestamp| #[trigger] update_effect(r@, now) == delete_stamp(now),
    {
        let mut r = MessageUpdate::none();
        r.stamp_deleted = true;
        assert forall|now: Timestamp| #[trigger] update_effect(r@, now) == delete_stamp(now) by {
            assert(update_effect(r@, now) =~= delete_stamp(now));
        }
        r
    }

    /// Pinning (`flag` true) or unpinning; the update time is stamped.
    pub fn pin(flag: bool) -> (r: MessageUpdate)
        ensures
            r@ == (MessageUpdateView { pinned: Some(flag), stamp_updated: true, ..no_update() }),
            forall|now: Timestamp| #[trigger] update_effect(r@, now) == pin_stamp(flag, now),
    {
        let mut r = MessageUpdate::none();
        r.pinned = Some(flag);
        r.stamp_updated = true;
        assert forall|now: Timestamp| #[trigger] update_effect(r@, now) == pin_stamp(flag, now) by {
            assert(update_effect(r@, now) =~= pin_stamp(flag, now));
        }
        r
    }

    /// A reaction; the update time is stamped.
    pub fn react(req: AddReactionRequest) -> (r: MessageUpdate)
        ensures
            r@ == (MessageUpdateView {
                react: Some((req.emoji@, req.user_id@)),
                stamp_updated: true,
                ..no_update()
            }),
            forall|now: Timestamp| #[trigger] update_effect(r@, now) == react_stamp(req.emoji@, req.user_id@, now),
    {
        let ghost e = req.emoji@;
        let ghost u = req.user_id@;
        let mut r = MessageUpdate::none();
        r.react = Some(req);
        r.stamp_updated = true;
        assert forall|now: Timestamp| #[trigger] update_effect(r@, now) == react_stamp(e, u, now) by {
            assert(update_effect(r@, now) =~= react_stamp(e, u, now));
        }
        r
    }

    /// Removal of every reaction with `emoji`; the update time is stamped.
    pub fn unreact(emoji: String) -> (r: MessageUpdate)
        ensures
            r@ == (MessageUpdateView { pull_emoji: Some(emoji@), stamp_updated: true, ..no_update() }),
            forall|now: Timestamp| #[trigger] update_effect(r@, now) == unreact_stamp(emoji@, now),
    {
        let ghost e = emoji@;
        let mut r = MessageUpdate::none();
        r.pull_emoji = Some(emoji);
        r.stamp_updated = true;
        assert forall|now: Timestamp| #[trigger] update_effect(r@, now) == unreact_stamp(e, now) by {
            assert(update_effect(r@, now) =~= unreact_stamp(e, now));
        }
        r
    }
}

/// The reaction list after `react` and then `pull`.
fn update_reactions(reactions: &mut Vec<Reaction>, react: &Option<AddReactionRequest>, pull: &Option<String>)
    ensures
        reactions_view(final(reactions)@) == reactions_after(
            reactions_view(old(reactions)@),
            match react {
                Some(r) => Some((r.emoji@, r.user_id@)),
                None => None,
            },
            opt_view(*pull),
        ),
{
    match react {
        Some(r) => {
            add_reaction_entry(reactions, &r.emoji, &r.user_id);
        },
        None => {},
    }
    match pull {
        Some(e) => {
            let kept = remove_emoji_entries(reactions, e);
            *reactions = kept;
        },
        None => {},
    }
}

/// Applies `u` at time `now` to one message.
fn update_message_in_place(m: &mut Message, u: &MessageUpdate, now: Timestamp)
    ensures
        final(m)@ == update_effect(u@, now)(old(m)@),
{
    match &u.content {
        Some(c) => {
            m.content = c.clone();
        },
        None => {},
    }
    if u.stamp_edited {
        m.edited_at = Some(now);
    }
    if u.stamp_updated {
        m.updated_at = now;
    }
    if u.stamp_deleted {
        m.deleted_at = Some(now);
    }
    match u.pinned {
        Some(b) => {
            m.is_pinned = b;
        },
        None => {},
    }
    update_reactions(&mut m.reactions, &u.react, &u.pull_emoji);
}

/// The typed query of a message listing: each field that is present must
/// match, and soft-deleted messages never do.
#[derive(Debug)]
pub struct MessageFilter {
    pub channel_id: Option<String>,
    pub user_id: Option<String>,
    pub thread: ThreadScope,
}

/// The model of a [`MessageFilter`].
pub struct MessageFilterView {
    pub channel_id: Option<Seq<char>>,
    pub user_id: Option<Seq<char>>,
    pub thread: ThreadScopeView,
}

impl View for MessageFilter {
    type V = MessageFilterView;

    open spec fn view(&self) -> MessageFilterView {
        MessageFilterView {
            channel_id: opt_view(self.channel_id),
            user_id: opt_view(self.user_id),
            thread: self.thread@,
        }
    }
}

/// Whether a listing with filter `f` takes message `m`.
pub open spec fn message_matches(f: MessageFilterView, m: MessageView) -> bool {
    &&& m.deleted_at is None
    &&& (f.channel_id matches Some(c) ==> m.channel_id == c)
    &&& (f.user_id matches Some(u) ==> m.user_id == u)
    &&& match f.thread {
        ThreadScopeView::Any => true,
        ThreadScopeView::TopLevel => m.thread_id is None,
        ThreadScopeView::Within(t) => m.thread_id == Some(t),
    }
}

/// Up to `n` messages of `s` that match `f`, latest position first.
pub open spec fn newest_matching(s: Seq<MessageView>, f: MessageFilterView, n: nat) -> Seq<MessageView>
    decreases s.len(),
{
    if s.len() == 0 || n == 0 {
        Seq::empty()
    } else if message_matches(f, s.last()) {
        seq![s.last()] + newest_matching(s.drop_last(), f, (n - 1) as nat)
    } else {
        newest_matching(s.drop_last(), f, n)
    }
}

/// Up to `n` messages of `s` that match `f`, earliest position first.
pub open spec fn oldest_matching(s: Seq<MessageView>, f: MessageFilterView, n: nat) -> Seq<MessageView>
    decreases s.len(),
{
    if s.len() == 0 || n == 0 {
        Seq::empty()
    } else if message_matches(f, s[0]) {
        seq![s[0]] + oldest_matching(s.skip(1), f, (n - 1) as nat)
    } else {
        oldest_matching(s.skip(1), f, n)
    }
}

/// A selection never holds more than `n` messages.
pub proof fn lemma_newest_len(s: Seq<MessageView>, f: MessageFilterView, n: nat)
    ensures
        newest_matching(s, f, n).len() <= n,
    decreases s.len(),
{
    if s.len() > 0 && n > 0 {
        if message_matches(f, s.last()) {
            lemma_newest_len(s.drop_last(), f, (n - 1) as nat);
        } else {
            lemma_newest_len(s.drop_last(), f, n);
        }
    }
}

/// A selection never holds more than `n` messages.
pub proof fn lemma_oldest_len(s: Seq<MessageView>, f: MessageFilterView, n: nat)
    ensures
        oldest_matching(s, f, n).len() <= n,
    decreases s.len(),
{
    if s.len() > 0 && n > 0 {
        if message_matches(f, s[0]) {
            lemma_oldest_len(s.skip(1), f, (n - 1) as nat);
        } else {
            lemma_oldest_len(s.skip(1), f, n);
        }
    }
}

/// What holds of every message of `s` holds of every message a selection
/// takes, and each of them matches the filter.
pub proof fn lemma_newest_members(
    s: Seq<MessageView>,
    f: MessageFilterView,
    n: nat,
    p: spec_fn(MessageView) -> bool,
)
    requires
        forall|j: int| 0 <= j < s.len() ==> p(#[trigger] s[j]),
    ensures
        forall|k: int|
            0 <= k < newest_matching(s, f, n).len() ==> p(#[trigger] newest_matching(s, f, n)[k])
                && message_matches(f, newest_matching(s, f, n)[k]),
    decreases s.len(),
{
    if s.len() > 0 && n > 0 {
        let init = s.drop_last();
        assert(p(s[s.len() - 1]));
        assert forall|j: int| 0 <= j < init.len() implies p(#[trigger] init[j]) by {
            assert(init[j] == s[j]);
        }
        if message_matches(f, s.last()) {
            lemma_newest_members(init, f, (n - 1) as nat, p);
            let rest = newest_matching(init, f, (n - 1) as nat);
            let out = newest_matching(s, f, n);
            assert(out == seq![s.last()] + rest);
            assert forall|k: int| 0 <= k < out.len() implies p(#[trigger] out[k]) && message_matches(
                f,
                out[k],
            ) by {
                if k > 0 {
                    assert(out[k] == rest[k - 1]);
                } else {
                    assert(out[k] == s.last());
                }
            }
        } else {
            lemma_newest_members(init, f, n, p);
            assert(newest_matching(s, f, n) == newest_matching(init, f, n));
        }
    }
}

/// What holds of every message of `s` holds of every message a selection
/// takes, and each of them matches the filter.
pub proof fn lemma_oldest_members(
    s: Seq<MessageView>,
    f: MessageFilterView,
    n: nat,
    p: spec_fn(MessageView) -> bool,
)
    requires
        forall|j: int| 0 <= j < s.len() ==> p(#[trigger] s[j]),
    ensures
        forall|k: int|
            0 <= k < oldest_matching(s, f, n).len() ==> p(#[trigger] oldest_matching(s, f, n)[k])
                && message_matches(f, oldest_matching(s, f, n)[k]),
    decreases s.len(),
{
    if s.len() > 0 && n > 0 {
        let tail = s.skip(1);
        assert(p(s[0]));
        assert forall|j: int| 0 <= j < tail.len() implies p(#[trigger] tail[j]) by {
            assert(tail[j] == s[j + 1]);
        }
        if message_matches(f, s[0]) {
            lemma_oldest_members(tail, f, (n - 1) as nat, p);
            let rest = oldest_matching(tail, f, (n - 1) as nat);
            let out = oldest_matching(s, f, n);
            assert(out == seq![s[0]] + rest);
            assert forall|k: int| 0 <= k < out.len() implies p(#[trigger] out[k]) && message_matches(
                f,
                out[k],
            ) by {
                if k > 0 {
                    assert(out[k] == rest[k - 1]);
                } else {
                    assert(out[k] == s[0]);
                }
            }
        } else {
            lemma_oldest_members(tail, f, n, p);
            assert(oldest_matching(s, f, n) == oldest_matching(tail, f, n));
        }
    }
}

/// Every message a selection takes matches the filter.
pub proof fn lemma_newest_matches(s: Seq<MessageView>, f: MessageFilterView, n: nat)
    ensures
        forall|k: int|
            0 <= k < newest_matching(s, f, n).len() ==> message_matches(
                f,
                #[trigger] newest_matching(s, f, n)[k],
            ),
{
    lemma_newest_members(s, f, n, |m: MessageView| true);
}

/// Every message a selection takes matches the filter.
pub proof fn lemma_oldest_matches(s: Seq<MessageView>, f: MessageFilterView, n: nat)
    ensures
        forall|k: int|
            0 <= k < oldest_matching(s, f, n).len() ==> message_matches(
                f,
                #[trigger] oldest_matching(s, f, n)[k],
            ),
{
    lemma_oldest_members(s, f, n, |m: MessageView| true);
}

/// From a store in creation order, a newest-first selection comes in
/// non-increasing order of creation time.
pub proof fn lemma_newest_descending(s: Seq<MessageView>, f: MessageFilterView, n: nat)
    requires
        creation_ordered(s),
    ensures
        forall|i: int, j: int|
            0 <= i < j < newest_matching(s, f, n).len() ==> (#[trigger] newest_matching(s, f, n)[i]).created_at
                >= (#[trigger] newest_matching(s, f, n)[j]).created_at,
    decreases s.len(),
{
    if s.len() > 0 && n > 0 {
        let init = s.drop_last();
        let top = s.last().created_at;
        assert(creation_ordered(init));
        if message_matches(f, s.last()) {
            let m = (n - 1) as nat;
            lemma_newest_descending(init, f, m);
            lemma_newest_members(init, f, m, |x: MessageView| x.created_at <= top);
            let rest = newest_matching(init, f, m);
            let out = newest_matching(s, f, n);
            assert forall|i: int, j: int| 0 <= i < j < out.len() implies (#[trigger] out[i]).created_at
                >= (#[trigger] out[j]).created_at by {
                assert(out[j] == rest[j - 1]);
                if i > 0 {
                    assert(out[i] == rest[i - 1]);
                }
            }
        } else {
            lemma_newest_descending(init, f, n);
        }
    }
}

/// From a store in creation order, an earliest-first selection comes in
/// non-decreasing order of creation time.
pub proof fn lemma_oldest_ascending(s: Seq<MessageView>, f: MessageFilterView, n: nat)
    requires
        creation_ordered(s),
    ensures
        forall|i: int, j: int|
            0 <= i < j < oldest_matching(s, f, n).len() ==> (#[trigger] oldest_matching(s, f, n)[i]).created_at
                <= (#[trigger] oldest_matching(s, f, n)[j]).created_at,
    decreases s.len(),
{
    if s.len() > 0 && n > 0 {
        let tail = s.skip(1);
        let low = s[0].created_at;
        assert forall|i: int, j: int| 0 <= i < j < tail.len() implies (#[trigger] tail[i]).created_at
            <= (#[trigger] tail[j]).created_at by {
            assert(tail[i] == s[i + 1] && tail[j] == s[j + 1]);
        }
        if message_matches(f, s[0]) {
            let m = (n - 1) as nat;
            lemma_oldest_ascending(tail, f, m);
            assert forall|j: int| 0 <= j < tail.len() implies (|x: MessageView| x.created_at >= low)(
                #[trigger] tail[j],
            ) by {
                assert(tail[j] == s[j + 1]);
            }
            lemma_oldest_members(tail, f, m, |x: MessageView| x.created_at >= low);
            let rest = oldest_matching(tail, f, m);
            let out = oldest_matching(s, f, n);
            assert forall|i: int, j: int| 0 <= i < j < out.len() implies (#[trigger] out[i]).created_at
                <= (#[trigger] out[j]).created_at by {
                assert(out[j] == rest[j - 1]);
                if i > 0 {
                    assert(out[i] == rest[i - 1]);
                }
            }
        } else {
            lemma_oldest_ascending(tail, f, n);
        }
    }
}

/// A repository of messages held in memory, in order of creation.
pub struct MessageStore {
    messages: Vec<Message>,
}

impl View for MessageStore {
    type V = Seq<MessageView>;

    closed spec fn view(&self) -> Seq<MessageView> {
        messages_view(self.messages@)
    }
}

impl MessageStore {
    /// The store's invariant.
    pub open spec fn wf(&self) -> bool {
        ids_unique(self@) && creation_ordered(self@)
    }

    /// An empty store.
    pub fn new() -> (r: MessageStore)
        ensures
            r.wf(),
            r@ == Seq::<MessageView>::empty(),
    {
        let r = MessageStore { messages: Vec::new() };
        assert(r@ =~= Seq::<MessageView>::empty());
        r
    }

    /// How many messages are stored, soft-deleted ones included.
    pub fn len(&self) -> (r: usize)
        ensures
            r == self@.len(),
    {
        self.messages.len()
    }

    /// The position of the message whose identifier is `key`.
    fn position(&self, key: &String) -> (r: Option<usize>)
        requires
            self.wf(),
        ensures
            r matches Some(i) ==> i < self@.len() && self@[i as int].id == Some(key@)
                && message_with_id(self@, key@) == Some(self@[i as int]),
            r is None ==> message_with_id(self@, key@) is None && forall|j: int|
                0 <= j < self@.len() ==> (#[trigger] self@[j]).id != Some(key@),
    {
        let ghost s = self@;
        let mut i: usize = 0;
        assert(s.skip(0) =~= s);
        while i < self.messages.len()
            invariant
                s == self@,
                i <= s.len(),
                message_with_id(s.skip(i as int), key@) == message_with_id(s, key@),
                forall|j: int| 0 <= j < i ==> (#[trigger] s[j]).id != Some(key@),
            decreases self.messages.len() - i,
        {
            assert(s.skip(i as int)[0] == s[i as int]);
            assert(s.skip(i as int).skip(1) =~= s.skip(i + 1));
            if crate::text::holds(&self.messages[i].id, key) {
                return Some(i);
            }
            i = i + 1;
        }
        None
    }

    /// Stores `msg` under identifier `id` and returns the stored message.
    /// An identifier already in use is refused, as a unique index would.
    pub fn insert(&mut self, msg: Message, id: String) -> (r: Result<Message, crate::error::ServiceError>)
        requires
            old(self).wf(),
        ensures
            final(self).wf(),
            r is Err <==> message_with_id(old(self)@, id@) is Some,
            r matches Err(e) ==> e is StorageFailure && final(self)@ == old(self)@,
            r matches Ok(m) ==> m@ == with_id(msg@, id@)
                && final(self)@ == insert_ordered(old(self)@, m@),
    {
        if self.position(&id).is_some() {
            return Err(crate::error::ServiceError::StorageFailure("duplicate key".to_string()));
        }
        let ghost s = self@;
        let mut stored = msg;
        stored.id = Some(id);
        let ghost m = stored@;
        let mut p: usize = self.messages.len();
        while p > 0 && self.messages[p - 1].created_at > stored.created_at
            invariant
                s == self@,
                m == stored@,
                p <= s.len(),
                forall|j: int| p <= j < s.len() ==> (#[trigger] s[j]).created_at > m.created_at,
            decreases p,
        {
            assert(s[p - 1] == self.messages@[p - 1]@);
            p = p - 1;
        }
        proof {
            assert forall|j: int| 0 <= j < p implies (#[trigger] s[j]).created_at <= m.created_at by {
                assert(s[j].created_at <= s[p - 1].created_at);
            }
            lemma_insert_at(s, m, p as int);
        }
        let copy = stored.duplicate();
        self.messages.insert(p, stored);
        assert(self@ =~= s.insert(p as int, m));
        Ok(copy)
    }

    /// Applies `u` at time `now` to the message with identifier `key`; no
    /// such message is no error.
    pub fn apply_update(&mut self, key: &String, u: &MessageUpdate, now: Timestamp)
        requires
            old(self).wf(),
        ensures
            final(self).wf(),
            final(self)@ == apply_to_id(old(self)@, key@, update_effect(u@, now)),
    {
        let ghost s = self@;
        let ghost f = update_effect(u@, now);
        match self.position(key) {
            Some(i) => {
                let ghost before = self.messages@[i as int]@;
                update_message_in_place(&mut self.messages[i], u, now);
                assert(self.messages@[i as int]@ == f(before));
                proof {
                    lemma_apply_at(s, key@, i as int, f);
                }
                assert(self@ =~= s.update(i as int, f(s[i as int])));
            },
            None => {
                proof {
                    lemma_apply_absent(s, key@, f);
                }
            },
        }
    }

    /// Whether message `i` matches `f`.
    fn matches_at(&self, f: &MessageFilter, i: usize) -> (r: bool)
        requires
            i < self@.len(),
        ensures
            r == message_matches(f@, self@[i as int]),
    {
        let m = &self.messages[i];
        assert(self@[i as int] == m@);
        if m.deleted_at.is_some() {
            return false;
        }
        let channel_ok = match &f.channel_id {
            Some(c) => m.channel_id == *c,
            None => true,
        };
        let user_ok = match &f.user_id {
            Some(u) => m.user_id == *u,
            None => true,
        };
        let thread_ok = match &f.thread {
            ThreadScope::Any => true,
            ThreadScope::TopLevel => m.thread_id.is_none(),
            ThreadScope::Within(t) => crate::text::holds(&m.thread_id, t),
        };
        channel_ok && user_ok && thread_ok
    }

    /// Up to `limit` messages matching `f`, most recently created first.
    pub fn select_newest(&self, f: &MessageFilter, limit: i64) -> (r: Vec<Message>)
        ensures
            messages_view(r@) == newest_matching(self@, f@, page_room(limit as int)),
    {
        let ghost s = self@;
        let ghost n = page_room(limit as int);
        let mut r: Vec<Message> = Vec::new();
        let mut i: usize = self.messages.len();
        let mut room: i64 = if limit > 0 { limit } else { 0 };
        assert(s.take(i as int) =~= s);
        while i > 0 && room > 0
            invariant
                s == self@,
                i <= s.len(),
                0 <= room <= n,
                messages_view(r@) + newest_matching(s.take(i as int), f@, room as nat)
                    == newest_matching(s, f@, n),
            decreases i,
        {
            let ghost t = s.take(i as int);
            assert(t.drop_last() =~= s.take(i - 1));
            assert(t.last() == s[i - 1]);
            if self.matches_at(f, i - 1) {
                let ghost before = messages_view(r@);
                r.push(self.messages[i - 1].duplicate());
                assert(messages_view(r@) =~= before + seq![s[i - 1]]);
                assert(messages_view(r@) + newest_matching(s.take(i - 1), f@, (room - 1) as nat)
                    =~= before + newest_matching(t, f@, room as nat));
                room = room - 1;
            }
            i = i - 1;
        }
        assert(newest_matching(s.take(i as int), f@, room as nat) =~= Seq::<MessageView>::empty());
        assert(messages_view(r@) =~= messages_view(r@) + Seq::<MessageView>::empty());
        r
    }

    /// Up to `limit` messages matching `f`, earliest created first.
    pub fn select_oldest(&self, f: &MessageFilter, limit: i64) -> (r: Vec<Message>)
        ensures
            messages_view(r@) == oldest_matching(self@, f@, page_room(limit as int)),
    {
        let ghost s = self@;
        let ghost n = page_room(limit as int);
        let mut r: Vec<Message> = Vec::new();
        let mut i: usize = 0;
        let mut room: i64 = if limit > 0 { limit } else { 0 };
        assert(s.skip(0) =~= s);
        while i < self.messages.len() && room > 0
            invariant
                s == self@,
                i <= s.len(),
                0 <= room <= n,
                messages_view(r@) + oldest_matching(s.skip(i as int), f@, room as nat)
                    == oldest_matching(s, f@, n),
            decreases s.len() - i,
        {
            let ghost t = s.skip(i as int);
            assert(t.skip(1) =~= s.skip(i + 1));
            assert(t[0] == s[i as int]);
            if self.matches_at(f, i) {
                let ghost before = messages_view(r@);
                r.push(self.messages[i].duplicate());
                assert(messages_view(r@) =~= before + seq![s[i as int]]);
                assert(messages_view(r@) + oldest_matching(s.skip(i + 1), f@, (room - 1) as nat)
                    =~= before + oldest_matching(t, f@, room as nat));
                room = room - 1;
            }
            i = i + 1;
        }
        assert(oldest_matching(s.skip(i as int), f@, room as nat) =~= Seq::<MessageView>::empty());
        assert(messages_view(r@) =~= messages_view(r@) + Seq::<MessageView>::empty());
        r
    }

    /// The message with identifier `key`, unless it is soft-deleted.
    pub fn find_visible(&self, key: &String) -> (r: Option<Message>)
        requires
            self.wf(),
        ensures
            r is None <==> visible_message(self@, key@) is None,
            r matches Some(m) ==> visible_message(self@, key@) == Some(m@),
    {
        match self.position(key) {
            Some(i) => {
                assert(self@[i as int] == self.messages@[i as int]@);
                if self.messages[i].deleted_at.is_none() {
                    Some(self.messages[i].duplicate())
                } else {
                    None
                }
            },
            None => None,
        }
    }
}

} // verus!
