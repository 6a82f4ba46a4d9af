use vstd::prelude::*;
use vstd::string::*;
use crate::clock::{now_millis, Timestamp};
use crate::error::ServiceError;
use crate::file::{
    files_view, new_file_placeholder, placeholder_file, File, FileQueryParams, FileResponse,
    FilesResponse, UploadRequest,
};
use crate::file_store::{
    apply_to_file, count_files, file_delete_stamp, file_stored_as, file_with_id,
    insert_file_ordered, newest_files, share_stamp, visible_file, FileFilter, FileFilterView,
    FileStore,
};
use crate::ids::{canonical_id, fresh_object_id, is_canonical_id, is_id_text, parse_record_id};
use crate::paging::{effective_limit, limit_of, page_room};
use crate::text::{copy_opt, join3, join4, opt_view};

verus! {

/// Relies on `uuid::Uuid::new_v4` for a random identifier and on its
/// `Display`, which writes it hyphenated: thirty-six characters.
#[verifier::external_body]
fn random_token() -> (r: String)
    ensures
        r@.len() == 36,
{
    uuid::Uuid::new_v4().to_string()
}

/// The path a record named by `id` is downloaded from.
pub open spec fn download_path(id: Seq<char>) -> Seq<char> {
    "/files/"@ + id + "/download"@
}

/// The object-storage address of `storage_key` in `bucket`. It is a plain
/// address, not a signed one.
pub open spec fn object_url(bucket: Seq<char>, storage_key: Seq<char>) -> Seq<char> {
    "https://"@ + bucket + ".s3.amazonaws.com/"@ + storage_key
}

/// The filter of a file listing.
pub open spec fn file_list_filter(workspace_id: Option<Seq<char>>, channel_id: Option<Seq<char>>) -> FileFilterView {
    FileFilterView { workspace_id, channel_id }
}

/// The path the record named by `id` is downloaded from.
pub fn download_url(id: &str) -> (r: String)
    ensures
        r@ == download_path(id@),
{
    join3("/files/", id, "/download")
}

/// The object-storage address of `storage_key` in `bucket`.
pub fn presigned_url(bucket: &str, storage_key: &str) -> (r: String)
    ensures
        r@ == object_url(bucket@, storage_key@),
{
    join4("https://", bucket, ".s3.amazonaws.com/", storage_key)
}

/// Creates the placeholder record of an upload for `req`, with a generated
/// name and storage key, stamped with the current time and a fresh
/// identifier. No content is stored.
pub fn upload_file(store: &mut FileStore, req: UploadRequest) -> (r: Result<File, ServiceError>)
    requires
        old(store).wf(),
    ensures
        final(store).wf(),
        r matches Ok(f) ==> {
            &&& f@.id matches Some(id) && is_canonical_id(id) && id.len() > 0
            &&& f@.created_at == f@.updated_at
            &&& exists|name_token: Seq<char>, key_token: Seq<char>|
                name_token.len() == 36 && key_token.len() == 36 && f@ == file_stored_as(
                    #[trigger] placeholder_file(
                        req.workspace_id@,
                        opt_view(req.channel_id),
                        req.uploaded_by@,
                        name_token,
                        key_token,
                        f@.created_at,
                    ),
                    f@.id->0,
                )
            &&& final(store)@ == insert_file_ordered(old(store)@, f@)
        },
        r matches Err(e) ==> e is StorageFailure && final(store)@ == old(store)@,
        r is Err ==> exists|k: Seq<char>|
            is_canonical_id(k) && #[trigger] file_with_id(old(store)@, k) is Some,
        old(store)@.len() == 0 ==> r is Ok,
{
    let now = now_millis();
    let name_token = random_token();
    let key_token = random_token();
    let id = fresh_object_id();
    let file = new_file_placeholder(req, name_token.as_str(), key_token.as_str(), now);
    store.insert(file, id)
}

/// The record named by `id`, unless it is soft-deleted, with the path it
/// is downloaded from.
pub fn get_file(store: &FileStore, id: &str) -> (r: Result<FileResponse, ServiceError>)
    requires
        store.wf(),
    ensures
        !is_id_text(id@) ==> r == Err::<FileResponse, ServiceError>(ServiceError::InvalidArgument),
        is_id_text(id@) ==> (r is Ok <==> visible_file(store@, canonical_id(id@)) is Some),
        r matches Ok(resp) ==> visible_file(store@, canonical_id(id@)) == Some(resp.file@)
            && resp.download_url@ == download_path(id@),
        is_id_text(id@) && r is Err ==> r == Err::<FileResponse, ServiceError>(ServiceError::NotFound),
{
    let key = parse_record_id(id)?;
    match store.find_visible(&key) {
        Some(file) => Ok(FileResponse { file, download_url: download_url(id) }),
        None => Err(ServiceError::NotFound),
    }
}

/// The newest records that match the query's workspace and channel, up to
/// the page size in force, with the number of all that match.
pub fn list_files(store: &FileStore, query: &FileQueryParams) -> (r: FilesResponse)
    requires
        store.wf(),
    ensures
        files_view(r.files@) == newest_files(
            store@,
            file_list_filter(opt_view(query.workspace_id), opt_view(query.channel_id)),
            page_room(limit_of(query.limit)),
        ),
        r.files@.len() <= page_room(limit_of(query.limit)),
        r.total == count_files(
            store@,
            file_list_filter(opt_view(query.workspace_id), opt_view(query.channel_id)),
        ),
        forall|i: int, j: int|
            0 <= i < j < r.files@.len() ==> (#[trigger] r.files@[i]).created_at
                >= (#[trigger] r.files@[j]).created_at,
{
    let limit = effective_limit(query.limit);
    let filter = FileFilter { workspace_id: copy_opt(&query.workspace_id), channel_id: copy_opt(&query.channel_id) };
    let files = store.select_newest(&filter, limit);
    let total = store.count(&filter);
    proof {
        let n = page_room(limit as int);
        crate::file_store::lemma_newest_files_len(store@, filter@, n);
        crate::file_store::lemma_newest_files_descending(store@, filter@, n);
        assert forall|i: int, j: int| 0 <= i < j < files@.len() implies (#[trigger] files@[i]).created_at
            >= (#[trigger] files@[j]).created_at by {
            assert(files_view(files@)[i] == files@[i]@);
            assert(files_view(files@)[j] == files@[j]@);
        }
    }
    FilesResponse { files, total }
}

/// Soft-deletes the record named by `id`. Repeating it re-stamps the
/// deletion time; no record with that identifier is no error.
pub fn delete_file(store: &mut FileStore, id: &str) -> (r: Result<(), ServiceError>)
    requires
        old(store).wf(),
    ensures
        final(store).wf(),
        r is Ok <==> is_id_text(id@),
        r matches Err(e) ==> e == ServiceError::InvalidArgument && final(store)@ == old(store)@,
        r is Ok ==> exists|now: Timestamp|
            final(store)@ == apply_to_file(old(store)@, canonical_id(id@), #[trigger] file_delete_stamp(now)),
{
    let key = parse_record_id(id)?;
    let now = now_millis();
    store.soft_delete(&key, now);
    Ok(())
}

/// Where the record named by `id` is downloaded from in `bucket`. A
/// soft-deleted record is still found.
pub fn download_file(store: &FileStore, id: &str, bucket: &str) -> (r: Result<String, ServiceError>)
    requires
        store.wf(),
    ensures
        !is_id_text(id@) ==> r == Err::<String, ServiceError>(ServiceError::InvalidArgument),
        is_id_text(id@) ==> (r is Ok <==> file_with_id(store@, canonical_id(id@)) is Some),
        r matches Ok(url) ==> file_with_id(store@, canonical_id(id@)) matches Some(f) && url@ == object_url(
            bucket@,
            f.storage_key,
        ),
        is_id_text(id@) && r is Err ==> r == Err::<String, ServiceError>(ServiceError::NotFound),
{
    let key = parse_record_id(id)?;
    match store.storage_key_of(&key) {
        Some(k) => Ok(presigned_url(bucket, k.as_str())),
        None => Err(ServiceError::NotFound),
    }
}

/// Makes the record named by `id` public and returns the path it is
/// shared under. No record with that identifier is no error, and no access
/// check is made.
pub fn share_file(store: &mut FileStore, id: &str) -> (r: Result<String, ServiceError>)
    requires
        old(store).wf(),
    ensures
        final(store).wf(),
        r is Ok <==> is_id_text(id@),
        r matches Err(e) ==> e == ServiceError::InvalidArgument && final(store)@ == old(store)@,
        r matches Ok(url) ==> url@ == download_path(id@)
            && final(store)@ == apply_to_file(old(store)@, canonical_id(id@), share_stamp()),
{
    let key = parse_record_id(id)?;
    store.make_public(&key);
    Ok(download_url(id))
}

} // verus!
