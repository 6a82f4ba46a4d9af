use vstd::prelude::*;
use crate::clock::Timestamp;
use crate::error::ServiceError;
use crate::file::{files_view, File, FileView};
use crate::paging::page_room;
use crate::text::opt_view;

verus! {

/// Every stored record has an identifier, and no two share one.
pub open spec fn file_ids_unique(s: Seq<FileView>) -> bool {
    &&& forall|i: int| 0 <= i < s.len() ==> (#[trigger] s[i]).id is Some
    &&& forall|i: int, j: int|
        0 <= i < s.len() && 0 <= j < s.len() && i != j ==> (#[trigger] s[i]).id != (#[trigger] s[j]).id
}

/// Stored records are kept in non-decreasing order of creation time.
pub open spec fn files_ordered(s: Seq<FileView>) -> bool {
    forall|i: int, j: int|
        0 <= i < j < s.len() ==> (#[trigger] s[i]).created_at <= (#[trigger] s[j]).created_at
}

/// The stored record with identifier `key`, soft-deleted or not.
pub open spec fn file_with_id(s: Seq<FileView>, key: Seq<char>) -> Option<FileView>
    decreases s.len(),
{
    if s.len() == 0 {
        None
    } else if s[0].id == Some(key) {
        Some(s[0])
    } else {
        file_with_id(s.skip(1), key)
    }
}

/// The stored record with identifier `key`, unless it is soft-deleted.
pub open spec fn visible_file(s: Seq<FileView>, key: Seq<char>) -> Option<FileView> {
    match file_with_id(s, key) {
        Some(f) => if f.deleted_at is None {
            Some(f)
        } else {
            None
        },
        None => None,
    }
}

/// The record as stored under identifier `id`.
pub open spec fn file_stored_as(f: FileView, id: Seq<char>) -> FileView {
    FileView { id: Some(id), ..f }
}

/// `s` with `f` placed after every record created no later than it.
pub open spec fn insert_file_ordered(s: Seq<FileView>, f: FileView) -> Seq<FileView>
    decreases s.len(),
{
    if s.len() == 0 {
        seq![f]
    } else if s.last().created_at <= f.created_at {
        s.push(f)
    } else {
        insert_file_ordered(s.drop_last(), f).push(s.last())
    }
}

/// `s` with `g` applied to the record whose identifier is `key`.
pub open spec fn apply_to_file(s: Seq<FileView>, key: Seq<char>, g: spec_fn(FileView) -> FileView) -> Seq<
    FileView,
> {
    s.map_values(|f: FileView| if f.id == Some(key) { g(f) } else { f })
}

/// Soft deletion: the deletion time is stamped (again, if already set).
pub open spec fn file_delete_stamp(now: Timestamp) -> spec_fn(FileView) -> FileView {
    |f: FileView| FileView { deleted_at: Some(now), ..f }
}

/// Sharing: the record becomes public.
pub open spec fn share_stamp() -> spec_fn(FileView) -> FileView {
    |f: FileView| FileView { is_public: true, ..f }
}

/// The typed query of a file listing: each field that is present must
/// match, and soft-deleted records never do.
#[derive(Debug)]
pub struct FileFilter {
    pub workspace_id: Option<String>,
    pub channel_id: Option<String>,
}

/// The model of a [`FileFilter`].
pub struct FileFilterView {
    pub workspace_id: Option<Seq<char>>,
    pub channel_id: Option<Seq<char>>,
}

impl View for FileFilter {
    type V = FileFilterView;

    open spec fn view(&self) -> FileFilterView {
        FileFilterView { workspace_id: opt_view(self.workspace_id), channel_id: opt_view(self.channel_id) }
    }
}

/// Whether a listing with filter `q` takes record `f`.
pub open spec fn file_matches(q: FileFilterView, f: FileView) -> bool {
    &&& f.deleted_at is None
    &&& (q.workspace_id matches Some(w) ==> f.workspace_id == w)
    &&& (q.channel_id matches Some(c) ==> f.channel_id == Some(c))
}

/// Up to `n` records of `s` that match `q`, latest position first.
pub open spec fn newest_files(s: Seq<FileView>, q: FileFilterView, n: nat) -> Seq<FileView>
    decreases s.len(),
{
    if s.len() == 0 || n == 0 {
        Seq::empty()
    } else if file_matches(q, s.last()) {
        seq![s.last()] + newest_files(s.drop_last(), q, (n - 1) as nat)
    } else {
        newest_files(s.drop_last(), q, n)
    }
}

/// How many records of `s` match `q`.
pub open spec fn count_files(s: Seq<FileView>, q: FileFilterView) -> nat
    decreases s.len(),
{
    if s.len() == 0 {
        0
    } else {
        count_files(s.drop_last(), q) + if file_matches(q, s.last()) {
            1nat
        } else {
            0nat
        }
    }
}

proof fn lemma_apply_file_at(s: Seq<FileView>, key: Seq<char>, i: int, g: spec_fn(FileView) -> FileView)
    requires
        file_ids_unique(s),
        0 <= i < s.len(),
        s[i].id == Some(key),
    ensures
        apply_to_file(s, key, g) == s.update(i, g(s[i])),
{
    assert(apply_to_file(s, key, g) =~= s.update(i, g(s[i])));
}

proof fn lemma_apply_file_absent(s: Seq<FileView>, key: Seq<char>, g: spec_fn(FileView) -> FileView)
    requires
        forall|j: int| 0 <= j < s.len() ==> (#[trigger] s[j]).id != Some(key),
    ensures
        apply_to_file(s, key, g) == s,
{
    assert(apply_to_file(s, key, g) =~= s);
}

proof fn lemma_insert_file_at(s: Seq<FileView>, f: FileView, p: int)
    requires
        0 <= p <= s.len(),
        forall|j: int| 0 <= j < p ==> (#[trigger] s[j]).created_at <= f.created_at,
        forall|j: int| p <= j < s.len() ==> (#[trigger] s[j]).created_at > f.created_at,
    ensures
        insert_file_ordered(s, f) == s.insert(p, f),
    decreases s.len(),
{
    if s.len() == 0 {
        assert(s.insert(p, f) =~= seq![f]);
    } else if s.last().created_at <= f.created_at {
        assert(p == s.len());
        assert(s.insert(p, f) =~= s.push(f));
    } else {
        let init = s.drop_last();
        lemma_insert_file_at(init, f, p);
        assert(s.insert(p, f) =~= init.insert(p, f).push(s.last()));
    }
}

/// A selection never holds more than `n` records.
pub proof fn lemma_newest_files_len(s: Seq<FileView>, q: FileFilterView, n: nat)
    ensures
        newest_files(s, q, n).len() <= n,
    decreases s.len(),
{
    if s.len() > 0 && n > 0 {
        if file_matches(q, s.last()) {
            lemma_newest_files_len(s.drop_last(), q, (n - 1) as nat);
        } else {
            lemma_newest_files_len(s.drop_last(), q, n);
        }
    }
}

/// What holds of every record of `s` holds of every record a selection
/// takes, and each of them matches the filter.
pub proof fn lemma_newest_files_members(s: Seq<FileView>, q: FileFilterView, n: nat, p: spec_fn(FileView) -> bool)
    requires
        forall|j: int| 0 <= j < s.len() ==> p(#[trigger] s[j]),
    ensures
        forall|k: int|
            0 <= k < newest_files(s, q, n).len() ==> p(#[trigger] newest_files(s, q, n)[k])
                && file_matches(q, newest_files(s, q, n)[k]),
    decreases s.len(),
{
    if s.len() > 0 && n > 0 {
        let init = s.drop_last();
        assert(p(s[s.len() - 1]));
        assert forall|j: int| 0 <= j < init.len() implies p(#[trigger] init[j]) by {
            assert(init[j] == s[j]);
        }
        if file_matches(q, s.last()) {
            lemma_newest_files_members(init, q, (n - 1) as nat, p);
            let rest = newest_files(init, q, (n - 1) as nat);
            let out = newest_files(s, q, n);
            assert(out == seq![s.last()] + rest);
            assert forall|k: int| 0 <= k < out.len() implies p(#[trigger] out[k]) && file_matches(q, out[k]) by {
                if k > 0 {
                    assert(out[k] == rest[k - 1]);
                } else {
                    assert(out[k] == s.last());
                }
            }
        } else {
            lemma_newest_files_members(init, q, n, p);
            assert(newest_files(s, q, n) == newest_files(init, q, n));
        }
    }
}

/// From a store in creation order, a newest-first selection comes in
/// non-increasing order of creation time.
pub proof fn lemma_newest_files_descending(s: Seq<FileView>, q: FileFilterView, n: nat)
    requires
        files_ordered(s),
    ensures
        forall|i: int, j: int|
            0 <= i < j < newest_files(s, q, n).len() ==> (#[trigger] newest_files(s, q, n)[i]).created_at
                >= (#[trigger] newest_files(s, q, n)[j]).created_at,
    decreases s.len(),
{
    if s.len() > 0 && n > 0 {
        let init = s.drop_last();
        let top = s.last().created_at;
        assert(files_ordered(init));
        if file_matches(q, s.last()) {
            let m = (n - 1) as nat;
            lemma_newest_files_descending(init, q, m);
            lemma_newest_files_members(init, q, m, |x: FileView| x.created_at <= top);
            let rest = newest_files(init, q, m);
            let out = newest_files(s, q, n);
            assert forall|i: int, j: int| 0 <= i < j < out.len() implies (#[trigger] out[i]).created_at
                >= (#[trigger] out[j]).created_at by {
                assert(out[j] == rest[j - 1]);
                if i > 0 {
                    assert(out[i] == rest[i - 1]);
                }
            }
        } else {
            lemma_newest_files_descending(init, q, n);
        }
    }
}

/// A repository of file records held in memory, in order of creation.
pub struct FileStore {
    files: Vec<File>,
}

impl View for FileStore {
    type V = Seq<FileView>;

    closed spec fn view(&self) -> Seq<FileView> {
        files_view(self.files@)
    }
}

impl FileStore {
    /// The store's invariant.
    pub open spec fn wf(&self) -> bool {
        file_ids_unique(self@) && files_ordered(self@)
    }

    /// An empty store.
    pub fn new() -> (r: FileStore)
        ensures
            r.wf(),
            r@ == Seq::<FileView>::empty(),
    {
        let r = FileStore { files: Vec::new() };
        assert(r@ =~= Seq::<FileView>::empty());
        r
    }

    /// How many records are stored, soft-deleted ones included.
    pub fn len(&self) -> (r: usize)
        ensures
            r == self@.len(),
    {
        self.files.len()
    }

    /// The position of the record whose identifier is `key`.
    fn position(&self, key: &String) -> (r: Option<usize>)
        requires
            self.wf(),
        ensures
            r matches Some(i) ==> i < self@.len() && self@[i as int].id == Some(key@)
                && file_with_id(self@, key@) == Some(self@[i as int]),
            r is None ==> file_with_id(self@, key@) is None && forall|j: int|
                0 <= j < self@.len() ==> (#[trigger] self@[j]).id != Some(key@),
    {
        let ghost s = self@;
        let mut i: usize = 0;
        assert(s.skip(0) =~= s);
        while i < self.files.len()
            invariant
                s == self@,
                i <= s.len(),
                file_with_id(s.skip(i as int), key@) == file_with_id(s, key@),
                forall|j: int| 0 <= j < i ==> (#[trigger] s[j]).id != Some(key@),
            decreases self.files.len() - i,
        {
            assert(s.skip(i as int)[0] == s[i as int]);
            assert(s.skip(i as int).skip(1) =~= s.skip(i + 1));
            if crate::text::holds(&self.files[i].id, key) {
                return Some(i);
            }
            i = i + 1;
        }
        None
    }

    /// Stores `file` under identifier `id` and returns the stored record.
    /// An identifier already in use is refused, as a unique index would.
    pub fn insert(&mut self, file: File, id: String) -> (r: Result<File, ServiceError>)
        requires
            old(self).wf(),
        ensures
            final(self).wf(),
            r is Err <==> file_with_id(old(self)@, id@) is Some,
            r matches Err(e) ==> e is StorageFailure && final(self)@ == old(self)@,
            r matches Ok(f) ==> f@ == file_stored_as(file@, id@)
                && final(self)@ == insert_file_ordered(old(self)@, f@),
    {
        if self.position(&id).is_some() {
            return Err(ServiceError::StorageFailure("duplicate key".to_string()));
        }
        let ghost s = self@;
        let mut stored = file;
        stored.id = Some(id);
        let ghost m = stored@;
        let mut p: usize = self.files.len();
        while p > 0 && self.files[p - 1].created_at > stored.created_at
            invariant
                s == self@,
                m == stored@,
                p <= s.len(),
                forall|j: int| p <= j < s.len() ==> (#[trigger] s[j]).created_at > m.created_at,
            decreases p,
        {
            assert(s[p - 1] == self.files@[p - 1]@);
            p = p - 1;
        }
        proof {
            assert forall|j: int| 0 <= j < p implies (#[trigger] s[j]).created_at <= m.created_at by {
                assert(s[j].created_at <= s[p - 1].created_at);
            }
            lemma_insert_file_at(s, m, p as int);
        }
        let copy = stored.duplicate();
        self.files.insert(p, stored);
        assert(self@ =~= s.insert(p as int, m));
        Ok(copy)
    }

    /// The record with identifier `key`, unless it is soft-deleted.
    pub fn find_visible(&self, key: &String) -> (r: Option<File>)
        requires
            self.wf(),
        ensures
            r is None <==> visible_file(self@, key@) is None,
            r matches Some(f) ==> visible_file(self@, key@) == Some(f@),
    {
        match self.position(key) {
            Some(i) => {
                assert(self@[i as int] == self.files@[i as int]@);
                if self.files[i].deleted_at.is_none() {
                    Some(self.files[i].duplicate())
                } else {
                    None
                }
            },
            None => None,
        }
    }

    /// The storage key of the record with identifier `key`, soft-deleted or
    /// not.
    pub fn storage_key_of(&self, key: &String) -> (r: Option<String>)
        requires
            self.wf(),
        ensures
            r is None <==> file_with_id(self@, key@) is None,
            r matches Some(k) ==> file_with_id(self@, key@) matches Some(f) && k@ == f.storage_key,
    {
        match self.position(key) {
            Some(i) => {
                assert(self@[i as int] == self.files@[i as int]@);
                Some(self.files[i].storage_key.clone())
            },
            None => None,
        }
    }

    /// Soft-deletes the record with identifier `key`; no such record is no
    /// error.
    pub fn soft_delete(&mut self, key: &String, now: Timestamp)
        requires
            old(self).wf(),
        ensures
            final(self).wf(),
            final(self)@ == apply_to_file(old(self)@, key@, file_delete_stamp(now)),
    {
        let ghost s = self@;
        match self.position(key) {
            Some(i) => {
                self.files[i].deleted_at = Some(now);
                proof {
                    lemma_apply_file_at(s, key@, i as int, file_delete_stamp(now));
                }
                assert(self@ =~= s.update(i as int, file_delete_stamp(now)(s[i as int])));
            },
            None => {
                proof {
                    lemma_apply_file_absent(s, key@, file_delete_stamp(now));
                }
            },
        }
    }

    /// Makes the record with identifier `key` public; no such record is no
    /// error.
    pub fn make_public(&mut self, key: &String)
        requires
            old(self).wf(),
        ensures
            final(self).wf(),
            final(self)@ == apply_to_file(old(self)@, key@, share_stamp()),
    {
        let ghost s = self@;
        match self.position(key) {
            Some(i) => {
                self.files[i].is_public = true;
                proof {
                    lemma_apply_file_at(s, key@, i as int, share_stamp());
                }
                assert(self@ =~= s.update(i as int, share_stamp()(s[i as int])));
            },
            None => {
                proof {
                    lemma_apply_file_absent(s, key@, share_stamp());
                }
            },
        }
    }

    /// Whether record `i` matches `q`.
    fn matches_at(&self, q: &FileFilter, i: usize) -> (r: bool)
        requires
            i < self@.len(),
        ensures
            r == file_matches(q@, self@[i as int]),
    {
        let f = &self.files[i];
        assert(self@[i as int] == f@);
        if f.deleted_at.is_some() {
            return false;
        }
        let workspace_ok = match &q.workspace_id {
            Some(w) => f.workspace_id == *w,
            None => true,
        };
        let channel_ok = match &q.channel_id {
            Some(c) => crate::text::holds(&f.channel_id, c),
            None => true,
        };
        workspace_ok && channel_ok
    }

    /// Up to `limit` records matching `q`, most recently created first.
    pub fn select_newest(&self, q: &FileFilter, limit: i64) -> (r: Vec<File>)
        ensures
            files_view(r@) == newest_files(self@, q@, page_room(limit as int)),
    {
        let ghost s = self@;
        let ghost n = page_room(limit as int);
        let mut r: Vec<File> = Vec::new();
        let mut i: usize = self.files.len();
        let mut room: i64 = if limit > 0 { limit } else { 0 };
        assert(s.take(i as int) =~= s);
        while i > 0 && room > 0
            invariant
                s == self@,
                i <= s.len(),
                0 <= room <= n,
                files_view(r@) + newest_files(s.take(i as int), q@, room as nat) == newest_files(s, q@, n),
            decreases i,
        {
            let ghost t = s.take(i as int);
            assert(t.drop_last() =~= s.take(i - 1));
            assert(t.last() == s[i - 1]);
            if self.matches_at(q, i - 1) {
                let ghost before = files_view(r@);
                r.push(self.files[i - 1].duplicate());
                assert(files_view(r@) =~= before + seq![s[i - 1]]);
                assert(files_view(r@) + newest_files(s.take(i - 1), q@, (room - 1) as nat) =~= before
                    + newest_files(t, q@, room as nat));
                room = room - 1;
            }
            i = i - 1;
        }
        assert(newest_files(s.take(i as int), q@, room as nat) =~= Seq::<FileView>::empty());
        assert(files_view(r@) =~= files_view(r@) + Seq::<FileView>::empty());
        r
    }

    /// How many records match `q`.
    pub fn count(&self, q: &FileFilter) -> (r: u64)
        ensures
            r == count_files(self@, q@),
    {
        let ghost s = self@;
        let mut c: u64 = 0;
        let mut i: usize = 0;
        assert(s.take(0) =~= Seq::<FileView>::empty());
        while i < self.files.len()
            invariant
                s == self@,
                i <= s.len(),
                c == count_files(s.take(i as int), q@),
                c <= i,
            decreases s.len() - i,
        {
            let ghost t = s.take(i + 1);
            assert(t.drop_last() =~= s.take(i as int));
            assert(t.last() == s[i as int]);
            if self.matches_at(q, i) {
                c = c + 1;
            }
            i = i + 1;
        }
        assert(s.take(i as int) =~= s);
        c
    }
}

} // verus!
