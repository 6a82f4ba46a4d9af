use vstd::prelude::*;
use crate::clock::Timestamp;
use crate::file::FileView;
use crate::file_store::{
    apply_to_file, file_delete_stamp, file_with_id, lemma_newest_files_members,
    newest_files, share_stamp, visible_file, FileFilterView,
};
use crate::message::MessageView;
use crate::message_store::{
    apply_to_id, delete_stamp, lemma_newest_members, lemma_oldest_members, message_with_id,
    newest_matching, oldest_matching, pin_stamp, visible_message, MessageFilterView,
};

verus! {

/// Looking a message up after an update that keeps identifiers finds the
/// updated message.
proof fn lemma_lookup_after_update(s: Seq<MessageView>, key: Seq<char>, g: spec_fn(MessageView) -> MessageView)
    requires
        forall|m: MessageView| #[trigger] g(m).id == m.id,
    ensures
        message_with_id(apply_to_id(s, key, g), key) == match message_with_id(s, key) {
            Some(m) => Some(g(m)),
            None => None::<MessageView>,
        },
    decreases s.len(),
{
    let d = apply_to_id(s, key, g);
    if s.len() > 0 {
        assert(d.skip(1) =~= apply_to_id(s.skip(1), key, g));
        assert(g(s[0]).id == s[0].id);
        lemma_lookup_after_update(s.skip(1), key, g);
    }
}

/// Looking a file record up after an update that keeps identifiers finds
/// the updated record.
proof fn lemma_file_lookup_after_update(s: Seq<FileView>, key: Seq<char>, g: spec_fn(FileView) -> FileView)
    requires
        forall|f: FileView| #[trigger] g(f).id == f.id,
    ensures
        file_with_id(apply_to_file(s, key, g), key) == match file_with_id(s, key) {
            Some(f) => Some(g(f)),
            None => None::<FileView>,
        },
    decreases s.len(),
{
    let d = apply_to_file(s, key, g);
    if s.len() > 0 {
        assert(d.skip(1) =~= apply_to_file(s.skip(1), key, g));
        assert(g(s[0]).id == s[0].id);
        lemma_file_lookup_after_update(s.skip(1), key, g);
    }
}

/// A soft-deleted message is hidden: looking it up by identifier finds
/// nothing, and no listing, whatever its filter and size, takes it.
pub proof fn lemma_deleted_message_hidden(
    s: Seq<MessageView>,
    key: Seq<char>,
    now: Timestamp,
    f: MessageFilterView,
    n: nat,
)
    ensures
        visible_message(apply_to_id(s, key, delete_stamp(now)), key) is None,
        forall|k: int|
            0 <= k < newest_matching(apply_to_id(s, key, delete_stamp(now)), f, n).len() ==> (
            #[trigger] newest_matching(apply_to_id(s, key, delete_stamp(now)), f, n)[k]).id != Some(key),
        forall|k: int|
            0 <= k < oldest_matching(apply_to_id(s, key, delete_stamp(now)), f, n).len() ==> (
            #[trigger] oldest_matching(apply_to_id(s, key, delete_stamp(now)), f, n)[k]).id != Some(key),
{
    let d = apply_to_id(s, key, delete_stamp(now));
    assert forall|m: MessageView| #[trigger] delete_stamp(now)(m).id == m.id by {}
    lemma_lookup_after_update(s, key, delete_stamp(now));
    let p = |m: MessageView| m.id == Some(key) ==> m.deleted_at is Some;
    assert forall|j: int| 0 <= j < d.len() implies p(#[trigger] d[j]) by {}
    lemma_newest_members(d, f, n, p);
    lemma_oldest_members(d, f, n, p);
}

/// A soft-deleted file record is hidden from lookup and from every
/// listing, but is still found for download, with its storage key
/// unchanged.
pub proof fn lemma_deleted_file_hidden(
    s: Seq<FileView>,
    key: Seq<char>,
    now: Timestamp,
    q: FileFilterView,
    n: nat,
)
    ensures
        visible_file(apply_to_file(s, key, file_delete_stamp(now)), key) is None,
        forall|k: int|
            0 <= k < newest_files(apply_to_file(s, key, file_delete_stamp(now)), q, n).len() ==> (
            #[trigger] newest_files(apply_to_file(s, key, file_delete_stamp(now)), q, n)[k]).id != Some(key),
        file_with_id(apply_to_file(s, key, file_delete_stamp(now)), key) is Some <==> file_with_id(s, key) is Some,
        file_with_id(s, key) matches Some(f) ==> file_with_id(
            apply_to_file(s, key, file_delete_stamp(now)),
            key,
        )->0.storage_key == f.storage_key,
{
    let d = apply_to_file(s, key, file_delete_stamp(now));
    assert forall|f: FileView| #[trigger] file_delete_stamp(now)(f).id == f.id by {}
    lemma_file_lookup_after_update(s, key, file_delete_stamp(now));
    let p = |f: FileView| f.id == Some(key) ==> f.deleted_at is Some;
    assert forall|j: int| 0 <= j < d.len() implies p(#[trigger] d[j]) by {}
    lemma_newest_files_members(d, q, n, p);
}

/// Pinning (or unpinning) twice leaves every message's pin flag as doing
/// it once does, and the message named is left with the flag asked for.
pub proof fn lemma_pin_idempotent(s: Seq<MessageView>, key: Seq<char>, flag: bool, t1: Timestamp, t2: Timestamp)
    ensures
        apply_to_id(apply_to_id(s, key, pin_stamp(flag, t1)), key, pin_stamp(flag, t2)).len() == s.len(),
        apply_to_id(s, key, pin_stamp(flag, t1)).len() == s.len(),
        forall|i: int|
            0 <= i < s.len() ==> (#[trigger] apply_to_id(
                apply_to_id(s, key, pin_stamp(flag, t1)),
                key,
                pin_stamp(flag, t2),
            )[i]).is_pinned == apply_to_id(s, key, pin_stamp(flag, t1))[i].is_pinned,
        forall|i: int|
            0 <= i < s.len() && s[i].id == Some(key) ==> (#[trigger] apply_to_id(
                s,
                key,
                pin_stamp(flag, t1),
            )[i]).is_pinned == flag,
{
}

/// Sharing twice leaves the records exactly as sharing once does.
pub proof fn lemma_share_idempotent(s: Seq<FileView>, key: Seq<char>)
    ensures
        apply_to_file(apply_to_file(s, key, share_stamp()), key, share_stamp()) == apply_to_file(
            s,
            key,
            share_stamp(),
        ),
        forall|i: int|
            0 <= i < s.len() && s[i].id == Some(key) ==> (#[trigger] apply_to_file(s, key, share_stamp())[i]).is_public,
{
    let once = apply_to_file(s, key, share_stamp());
    let twice = apply_to_file(once, key, share_stamp());
    assert(twice =~= once);
}

} // verus!
