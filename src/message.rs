use vstd::prelude::*;
use crate::clock::Timestamp;
use crate::text::{copy_opt, copy_strings, opt_view, strings_view};

verus! {

/// What a message carries. Creation always yields `Text`; the other kinds
/// are set by extensions only.
#[derive(Debug, Clone, Copy, PartialEq, Eq, Structural)]
pub enum MessageType {
    Text,
    Image,
    Video,
    Audio,
    File,
    System,
    CodeSnippet,
    Poll,
}

/// A file attached to a message.
#[derive(Debug)]
pub struct Attachment {
    pub id: String,
    pub file_type: String,
    pub file_name: String,
    pub file_size: u64,
    pub url: String,
    pub thumbnail_url: Option<String>,
}

/// The model of an [`Attachment`].
pub struct AttachmentView {
    pub id: Seq<char>,
    pub file_type: Seq<char>,
    pub file_name: Seq<char>,
    pub file_size: u64,
    pub url: Seq<char>,
    pub thumbnail_url: Option<Seq<char>>,
}

impl View for Attachment {
    type V = AttachmentView;

    open spec fn view(&self) -> AttachmentView {
        AttachmentView {
            id: self.id@,
            file_type: self.file_type@,
            file_name: self.file_name@,
            file_size: self.file_size,
            url: self.url@,
            thumbnail_url: opt_view(self.thumbnail_url),
        }
    }
}

/// One entry of a message's reaction list.
#[derive(Debug)]
pub struct Reaction {
    pub emoji: String,
    pub user_ids: Vec<String>,
    pub count: u32,
}

/// The model of a [`Reaction`].
pub struct ReactionView {
    pub emoji: Seq<char>,
    pub user_ids: Seq<Seq<char>>,
    pub count: u32,
}

impl View for Reaction {
    type V = ReactionView;

    open spec fn view(&self) -> ReactionView {
        ReactionView { emoji: self.emoji@, user_ids: strings_view(self.user_ids@), count: self.count }
    }
}

/// A chat message.
#[derive(Debug)]
pub struct Message {
    /// Assigned when the message is first stored; absent before.
    pub id: Option<String>,
    pub channel_id: String,
    pub user_id: String,
    pub content: String,
    pub thread_id: Option<String>,
    pub parent_message_id: Option<String>,
    pub message_type: MessageType,
    pub attachments: Vec<Attachment>,
    pub mentions: Vec<String>,
    pub reactions: Vec<Reaction>,
    pub edited_at: Option<Timestamp>,
    /// Present once the message is soft-deleted.
    pub deleted_at: Option<Timestamp>,
    pub is_pinned: bool,
    pub created_at: Timestamp,
    pub updated_at: Timestamp,
}

/// The model of a [`Message`].
pub struct MessageView {
    pub id: Option<Seq<char>>,
    pub channel_id: Seq<char>,
    pub user_id: Seq<char>,
    pub content: Seq<char>,
    pub thread_id: Option<Seq<char>>,
    pub parent_message_id: Option<Seq<char>>,
    pub message_type: MessageType,
    pub attachments: Seq<AttachmentView>,
    pub mentions: Seq<Seq<char>>,
    pub reactions: Seq<ReactionView>,
    pub edited_at: Option<Timestamp>,
    pub deleted_at: Option<Timestamp>,
    pub is_pinned: bool,
    pub created_at: Timestamp,
    pub updated_at: Timestamp,
}

/// The models of a sequence of attachments.
pub open spec fn attachments_view(v: Seq<Attachment>) -> Seq<AttachmentView> {
    v.map_values(|a: Attachment| a@)
}

/// The models of a sequence of reactions.
pub open spec fn reactions_view(v: Seq<Reaction>) -> Seq<ReactionView> {
    v.map_values(|r: Reaction| r@)
}

/// The models of a sequence of messages.
pub open spec fn messages_view(v: Seq<Message>) -> Seq<MessageView> {
    v.map_values(|m: Message| m@)
}

impl View for Message {
    type V = MessageView;

    open spec fn view(&self) -> MessageView {
        MessageView {
            id: opt_view(self.id),
            channel_id: self.channel_id@,
            user_id: self.user_id@,
            content: self.content@,
            thread_id: opt_view(self.thread_id),
            parent_message_id: opt_view(self.parent_message_id),
            message_type: self.message_type,
            attachments: attachments_view(self.attachments@),
            mentions: strings_view(self.mentions@),
            reactions: reactions_view(self.reactions@),
            edited_at: self.edited_at,
            deleted_at: self.deleted_at,
            is_pinned: self.is_pinned,
            created_at: self.created_at,
            updated_at: self.updated_at,
        }
    }
}

/// The body of a request to create a message.
#[derive(Debug)]
pub struct CreateMessageRequest {
    pub channel_id: String,
    pub user_id: String,
    pub content: String,
    pub thread_id: Option<String>,
    pub parent_message_id: Option<String>,
    pub attachments: Vec<Attachment>,
    pub mentions: Vec<String>,
}

/// The body of a request to edit a message.
#[derive(Debug)]
pub struct UpdateMessageRequest {
    pub content: Option<String>,
}

/// The body of a request to react to a message.
#[derive(Debug)]
pub struct AddReactionRequest {
    pub user_id: String,
    pub emoji: String,
}

/// Query parameters of a message listing. `before` and `after` are
/// accepted and not used.
#[derive(Debug)]
pub struct MessageQueryParams {
    pub channel_id: Option<String>,
    pub user_id: Option<String>,
    pub before: Option<String>,
    pub after: Option<String>,
    pub limit: Option<i64>,
}

/// A page of messages.
#[derive(Debug)]
pub struct MessagesResponse {
    pub messages: Vec<Message>,
    /// Whether the page is full: a hint that more may follow, not a promise.
    pub has_more: bool,
    /// The identifier of the last message of the page, if any.
    pub cursor: Option<String>,
}

/// The message that a creation request describes, before it is stored.
pub open spec fn created_message(
    channel_id: Seq<char>,
    user_id: Seq<char>,
    content: Seq<char>,
    thread_id: Option<Seq<char>>,
    parent_message_id: Option<Seq<char>>,
    attachments: Seq<AttachmentView>,
    mentions: Seq<Seq<char>>,
    now: Timestamp,
) -> MessageView {
    MessageView {
        id: None,
        channel_id,
        user_id,
        content,
        thread_id,
        parent_message_id,
        message_type: MessageType::Text,
        attachments,
        mentions,
        reactions: Seq::empty(),
        edited_at: None,
        deleted_at: None,
        is_pinned: false,
        created_at: now,
        updated_at: now,
    }
}

/// The message that `req` describes, created at `now`: a text message with
/// no identifier yet, no reactions, not pinned, never edited.
pub fn new_message(req: CreateMessageRequest, now: Timestamp) -> (r: Message)
    ensures
        r@ == created_message(
            req.channel_id@,
            req.user_id@,
            req.content@,
            opt_view(req.thread_id),
            opt_view(req.parent_message_id),
            attachments_view(req.attachments@),
            strings_view(req.mentions@),
            now,
        ),
{
    let r = Message {
        id: None,
        channel_id: req.channel_id,
        user_id: req.user_id,
        content: req.content,
        thread_id: req.thread_id,
        parent_message_id: req.parent_message_id,
        message_type: MessageType::Text,
        attachments: req.attachments,
        mentions: req.mentions,
        reactions: Vec::new(),
        edited_at: None,
        deleted_at: None,
        is_pinned: false,
        created_at: now,
        updated_at: now,
    };
    assert(reactions_view(r.reactions@) =~= Seq::<ReactionView>::empty());
    r
}

impl Attachment {
    /// A copy of this attachment.
    pub fn duplicate(&self) -> (r: Attachment)
        ensures
            r@ == self@,
    {
        Attachment {
            id: self.id.clone(),
            file_type: self.file_type.clone(),
            file_name: self.file_name.clone(),
            file_size: self.file_size,
            url: self.url.clone(),
            thumbnail_url: copy_opt(&self.thumbnail_url),
        }
    }
}

impl Reaction {
    /// A copy of this reaction entry.
    pub fn duplicate(&self) -> (r: Reaction)
        ensures
            r@ == self@,
    {
        Reaction { emoji: self.emoji.clone(), user_ids: copy_strings(&self.user_ids), count: self.count }
    }
}

/// A copy of a list of attachments.
pub fn copy_attachments(v: &Vec<Attachment>) -> (r: Vec<Attachment>)
    ensures
        attachments_view(r@) == attachments_view(v@),
{
    let mut r: Vec<Attachment> = Vec::new();
    let mut i: usize = 0;
    while i < v.len()
        invariant
            i <= v.len(),
            r@.len() == i,
            forall|j: int| 0 <= j < i ==> #[trigger] r@[j]@ == v@[j]@,
        decreases v.len() - i,
    {
        r.push(v[i].duplicate());
        i = i + 1;
    }
    assert(attachments_view(r@) =~= attachments_view(v@));
    r
}

/// A copy of a list of reactions.
pub fn copy_reactions(v: &Vec<Reaction>) -> (r: Vec<Reaction>)
    ensures
        reactions_view(r@) == reactions_view(v@),
{
    let mut r: Vec<Reaction> = Vec::new();
    let mut i: usize = 0;
    while i < v.len()
        invariant
            i <= v.len(),
            r@.len() == i,
            forall|j: int| 0 <= j < i ==> #[trigger] r@[j]@ == v@[j]@,
        decreases v.len() - i,
    {
        r.push(v[i].duplicate());
        i = i + 1;
    }
    assert(reactions_view(r@) =~= reactions_view(v@));
    r
}

impl Message {
    /// A copy of this message.
    pub fn duplicate(&self) -> (r: Message)
        ensures
            r@ == self@,
    {
        Message {
            id: copy_opt(&self.id),
            channel_id: self.channel_id.clone(),
            user_id: self.user_id.clone(),
            content: self.content.clone(),
            thread_id: copy_opt(&self.thread_id),
            parent_message_id: copy_opt(&self.parent_message_id),
            message_type: self.message_type,
            attachments: copy_attachments(&self.attachments),
            mentions: copy_strings(&self.mentions),
            reactions: copy_reactions(&self.reactions),
            edited_at: self.edited_at,
            deleted_at: self.deleted_at,
            is_pinned: self.is_pinned,
            created_at: self.created_at,
            updated_at: self.updated_at,
        }
    }
}

/// The entry that one reaction call adds: one emoji, one user, a count of one.
pub open spec fn reaction_entry(emoji: Seq<char>, user: Seq<char>) -> ReactionView {
    ReactionView { emoji, user_ids: seq![user], count: 1 }
}

/// A reaction list after `user` reacts with `emoji`: the entry is appended
/// unless an identical entry is already there. Entries for one emoji are not
/// merged, so reactions of two users with one emoji make two entries.
pub open spec fn with_reaction(rs: Seq<ReactionView>, emoji: Seq<char>, user: Seq<char>) -> Seq<
    ReactionView,
> {
    if rs.contains(reaction_entry(emoji, user)) {
        rs
    } else {
        rs.push(reaction_entry(emoji, user))
    }
}

/// A reaction list without any entry for `emoji`, whoever added it; the
/// other entries keep their order.
pub open spec fn without_emoji(rs: Seq<ReactionView>, emoji: Seq<char>) -> Seq<ReactionView>
    decreases rs.len(),
{
    if rs.len() == 0 {
        rs
    } else {
        let init = without_emoji(rs.drop_last(), emoji);
        if rs.last().emoji == emoji {
            init
        } else {
            init.push(rs.last())
        }
    }
}

/// Whether `r` is the entry that `user` reacting with `emoji` adds.
fn is_entry(r: &Reaction, emoji: &String, user: &String) -> (b: bool)
    ensures
        b == (r@ == reaction_entry(emoji@, user@)),
{
    if r.count == 1 && r.emoji == *emoji && r.user_ids.len() == 1 {
        let same = r.user_ids[0] == *user;
        if same {
            assert(strings_view(r.user_ids@) =~= seq![user@]);
        } else {
            assert(strings_view(r.user_ids@)[0] != seq![user@][0]);
        }
        same
    } else {
        if r.user_ids.len() != 1 {
            assert(strings_view(r.user_ids@).len() != seq![user@].len());
        }
        false
    }
}

/// The entry that `user` reacting with `emoji` adds.
pub fn new_reaction_entry(emoji: &String, user: &String) -> (r: Reaction)
    ensures
        r@ == reaction_entry(emoji@, user@),
{
    let mut users: Vec<String> = Vec::new();
    users.push(user.clone());
    assert(strings_view(users@) =~= seq![user@]);
    Reaction { emoji: emoji.clone(), user_ids: users, count: 1 }
}

/// Records that `user` reacted with `emoji`, as a set insertion of the
/// entry `{emoji, [user], 1}`.
pub fn add_reaction_entry(reactions: &mut Vec<Reaction>, emoji: &String, user: &String)
    ensures
        reactions_view(final(reactions)@) == with_reaction(
            reactions_view(old(reactions)@),
            emoji@,
            user@,
        ),
{
    let ghost rs = reactions_view(reactions@);
    let mut i: usize = 0;
    while i < reactions.len()
        invariant
            i <= reactions.len(),
            rs == reactions_view(reactions@),
            forall|j: int| 0 <= j < i ==> rs[j] != reaction_entry(emoji@, user@),
        decreases reactions.len() - i,
    {
        if is_entry(&reactions[i], emoji, user) {
            assert(rs[i as int] == reaction_entry(emoji@, user@));
            assert(rs.contains(reaction_entry(emoji@, user@)));
            return;
        }
        i = i + 1;
    }
    assert(!rs.contains(reaction_entry(emoji@, user@)));
    let entry = new_reaction_entry(emoji, user);
    reactions.push(entry);
    assert(reactions_view(reactions@) =~= rs.push(reaction_entry(emoji@, user@)));
}

/// The reaction list without any entry for `emoji`.
pub fn remove_emoji_entries(reactions: &Vec<Reaction>, emoji: &String) -> (r: Vec<Reaction>)
    ensures
        reactions_view(r@) == without_emoji(reactions_view(reactions@), emoji@),
{
    let ghost rs = reactions_view(reactions@);
    let mut r: Vec<Reaction> = Vec::new();
    let mut i: usize = 0;
    while i < reactions.len()
        invariant
            i <= reactions.len(),
            rs == reactions_view(reactions@),
            reactions_view(r@) == without_emoji(rs.take(i as int), emoji@),
        decreases reactions.len() - i,
    {
        assert(rs.take(i + 1).drop_last() =~= rs.take(i as int));
        if reactions[i].emoji != *emoji {
            r.push(reactions[i].duplicate());
            assert(reactions_view(r@) =~= without_emoji(rs.take(i as int), emoji@).push(rs[i as int]));
        }
        i = i + 1;
    }
    assert(rs.take(i as int) =~= rs);
    r
}

} // verus!
