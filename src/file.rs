use vstd::prelude::*;
use crate::clock::Timestamp;
use vstd::string::*;
use crate::text::{copy_opt, opt_view};

verus! {

/// What is known of a file's content; all of it optional. A duration is
/// held in milliseconds.
#[derive(Debug, Clone, Copy, PartialEq, Eq, Structural)]
pub struct FileMetadata {
    pub width: Option<u32>,
    pub height: Option<u32>,
    pub duration_millis: Option<u64>,
    pub pages: Option<u32>,
}

impl Default for FileMetadata {
    fn default() -> (r: FileMetadata)
        ensures
            r.width is None && r.height is None && r.duration_millis is None && r.pages is None,
    {
        FileMetadata { width: None, height: None, duration_millis: None, pages: None }
    }
}

/// The metadata of a file nobody has examined yet.
pub open spec fn no_metadata() -> FileMetadata {
    FileMetadata { width: None, height: None, duration_millis: None, pages: None }
}

/// A stored file's metadata record.
#[derive(Debug)]
pub struct File {
    /// Assigned when the record is first stored; absent before.
    pub id: Option<String>,
    pub name: String,
    pub original_name: String,
    pub mime_type: String,
    pub size: u64,
    pub storage_key: String,
    pub url: String,
    pub thumbnail_url: Option<String>,
    pub workspace_id: String,
    pub channel_id: Option<String>,
    pub uploaded_by: String,
    pub checksum: String,
    pub metadata: FileMetadata,
    pub is_public: bool,
    /// Present once the record is soft-deleted.
    pub deleted_at: Option<Timestamp>,
    pub created_at: Timestamp,
    pub updated_at: Timestamp,
}

/// The model of a [`File`].
pub struct FileView {
    pub id: Option<Seq<char>>,
    pub name: Seq<char>,
    pub original_name: Seq<char>,
    pub mime_type: Seq<char>,
    pub size: u64,
    pub storage_key: Seq<char>,
    pub url: Seq<char>,
    pub thumbnail_url: Option<Seq<char>>,
    pub workspace_id: Seq<char>,
    pub channel_id: Option<Seq<char>>,
    pub uploaded_by: Seq<char>,
    pub checksum: Seq<char>,
    pub metadata: FileMetadata,
    pub is_public: bool,
    pub deleted_at: Option<Timestamp>,
    pub created_at: Timestamp,
    pub updated_at: Timestamp,
}

impl View for File {
    type V = FileView;

    open spec fn view(&self) -> FileView {
        FileView {
            id: opt_view(self.id),
            name: self.name@,
            original_name: self.original_name@,
            mime_type: self.mime_type@,
            size: self.size,
            storage_key: self.storage_key@,
            url: self.url@,
            thumbnail_url: opt_view(self.thumbnail_url),
            workspace_id: self.workspace_id@,
            channel_id: opt_view(self.channel_id),
            uploaded_by: self.uploaded_by@,
            checksum: self.checksum@,
            metadata: self.metadata,
            is_public: self.is_public,
            deleted_at: self.deleted_at,
            created_at: self.created_at,
            updated_at: self.updated_at,
        }
    }
}

/// The models of a sequence of files.
pub open spec fn files_view(v: Seq<File>) -> Seq<FileView> {
    v.map_values(|f: File| f@)
}

/// Query parameters of an upload.
#[derive(Debug)]
pub struct UploadRequest {
    pub workspace_id: String,
    pub channel_id: Option<String>,
    pub uploaded_by: String,
}

/// Query parameters of a file listing. `uploaded_by` and `mime_type` are
/// accepted and not used.
#[derive(Debug)]
pub struct FileQueryParams {
    pub workspace_id: Option<String>,
    pub channel_id: Option<String>,
    pub uploaded_by: Option<String>,
    pub mime_type: Option<String>,
    pub limit: Option<i64>,
}

/// A file record with the path it is downloaded from.
#[derive(Debug)]
pub struct FileResponse {
    pub file: File,
    pub download_url: String,
}

/// A page of file records, with the number of records that match the
/// listing's filter regardless of the page size.
#[derive(Debug)]
pub struct FilesResponse {
    pub files: Vec<File>,
    pub total: u64,
}

/// The record an upload creates before any content arrives: empty storage
/// fields, a generated name and storage key, private, not deleted.
pub open spec fn placeholder_file(
    workspace_id: Seq<char>,
    channel_id: Option<Seq<char>>,
    uploaded_by: Seq<char>,
    name_token: Seq<char>,
    key_token: Seq<char>,
    now: Timestamp,
) -> FileView {
    FileView {
        id: None,
        name: "file_"@ + name_token,
        original_name: "uploaded_file"@,
        mime_type: "application/octet-stream"@,
        size: 0,
        storage_key: "files/"@ + workspace_id + "/"@ + key_token,
        url: Seq::empty(),
        thumbnail_url: None,
        workspace_id,
        channel_id,
        uploaded_by,
        checksum: Seq::empty(),
        metadata: no_metadata(),
        is_public: false,
        deleted_at: None,
        created_at: now,
        updated_at: now,
    }
}

/// The placeholder record for `req`, named with `name_token` and stored
/// under a key ending in `key_token`.
pub fn new_file_placeholder(req: UploadRequest, name_token: &str, key_token: &str, now: Timestamp) -> (r: File)
    ensures
        r@ == placeholder_file(
            req.workspace_id@,
            opt_view(req.channel_id),
            req.uploaded_by@,
            name_token@,
            key_token@,
            now,
        ),
{
    let name = String::from_str("file_").concat(name_token);
    let storage_key = crate::text::join4("files/", req.workspace_id.as_str(), "/", key_token);
    let r = File {
        id: None,
        name,
        original_name: "uploaded_file".to_string(),
        mime_type: "application/octet-stream".to_string(),
        size: 0,
        storage_key,
        url: String::new(),
        thumbnail_url: None,
        workspace_id: req.workspace_id,
        channel_id: req.channel_id,
        uploaded_by: req.uploaded_by,
        checksum: String::new(),
        metadata: FileMetadata::default(),
        is_public: false,
        deleted_at: None,
        created_at: now,
        updated_at: now,
    };
    r
}

impl File {
    /// A copy of this record.
    pub fn duplicate(&self) -> (r: File)
        ensures
            r@ == self@,
    {
        File {
            id: copy_opt(&self.id),
            name: self.name.clone(),
            original_name: self.original_name.clone(),
            mime_type: self.mime_type.clone(),
            size: self.size,
            storage_key: self.storage_key.clone(),
            url: self.url.clone(),
            thumbnail_url: copy_opt(&self.thumbnail_url),
            workspace_id: self.workspace_id.clone(),
            channel_id: copy_opt(&self.channel_id),
            uploaded_by: self.uploaded_by.clone(),
            checksum: self.checksum.clone(),
            metadata: self.metadata,
            is_public: self.is_public,
            deleted_at: self.deleted_at,
            created_at: self.created_at,
            updated_at: self.updated_at,
        }
    }
}

} // verus!
