use quckchat_records::error::ServiceError;
use quckchat_records::file::{new_file_placeholder, FileQueryParams, UploadRequest};
use quckchat_records::file_service::{
    delete_file, download_file, download_url, get_file, list_files, presigned_url, share_file, upload_file,
};
use quckchat_records::file_store::FileStore;

fn upload(ws: &str, channel: Option<&str>) -> UploadRequest {
    UploadRequest {
        workspace_id: ws.to_string(),
        channel_id: channel.map(|c| c.to_string()),
        uploaded_by: "u1".to_string(),
    }
}

fn query(ws: Option<&str>, channel: Option<&str>, limit: Option<i64>) -> FileQueryParams {
    FileQueryParams {
        workspace_id: ws.map(|w| w.to_string()),
        channel_id: channel.map(|c| c.to_string()),
        uploaded_by: None,
        mime_type: None,
        limit,
    }
}

#[test]
fn upload_then_list_with_limit_one() {
    let mut store = FileStore::new();
    upload_file(&mut store, upload("w1", None)).unwrap();
    upload_file(&mut store, upload("w1", Some("c1"))).unwrap();
    upload_file(&mut store, upload("w2", None)).unwrap();
    let page = list_files(&store, &query(Some("w1"), None, Some(1)));
    assert_eq!(page.files.len(), 1);
    assert!(page.total >= 1);
    assert_eq!(page.total, 2);
    let page = list_files(&store, &query(Some("w1"), Some("c1"), None));
    assert_eq!(page.files.len(), 1);
    assert_eq!(page.total, 1);
}

#[test]
fn upload_builds_placeholder() {
    let mut store = FileStore::new();
    let f = upload_file(&mut store, upload("w1", Some("c1"))).unwrap();
    let id = f.id.clone().unwrap();
    assert_eq!(id.len(), 24);
    assert_eq!(f.created_at, f.updated_at);
    assert!(f.name.starts_with("file_"));
    assert_eq!(f.name.len(), 5 + 36);
    assert!(f.storage_key.starts_with("files/w1/"));
    assert_eq!(f.storage_key.len(), 9 + 36);
    assert_ne!(f.name[5..], f.storage_key[9..]);
    assert_eq!(f.size, 0);
    assert_eq!(f.checksum, "");
    assert!(!f.is_public);
    assert_eq!(f.original_name, "uploaded_file");
    assert_eq!(f.mime_type, "application/octet-stream");
    assert!(f.metadata.width.is_none());
}

#[test]
fn placeholder_is_exact() {
    let f = new_file_placeholder(upload("w9", None), "N", "K", 42);
    assert_eq!(f.name, "file_N");
    assert_eq!(f.storage_key, "files/w9/K");
    assert_eq!(f.created_at, 42);
    assert_eq!(f.updated_at, 42);
    assert!(f.id.is_none());
    assert_eq!(f.uploaded_by, "u1");
}

#[test]
fn get_returns_download_url() {
    let mut store = FileStore::new();
    let id = upload_file(&mut store, upload("w1", None)).unwrap().id.unwrap();
    let resp = get_file(&store, &id).unwrap();
    assert_eq!(resp.download_url, format!("/files/{}/download", id));
    assert_eq!(resp.file.workspace_id, "w1");
    assert_eq!(get_file(&store, "nope").unwrap_err(), ServiceError::InvalidArgument);
    assert_eq!(get_file(&store, "ffffffffffffffffffffffff").unwrap_err(), ServiceError::NotFound);
    assert_eq!(ServiceError::NotFound.status_code(), 404);
}

#[test]
fn deleted_file_hidden_but_downloadable() {
    let mut store = FileStore::new();
    let f = upload_file(&mut store, upload("w1", None)).unwrap();
    let id = f.id.clone().unwrap();
    delete_file(&mut store, &id).unwrap();
    delete_file(&mut store, &id).unwrap();
    assert_eq!(get_file(&store, &id).unwrap_err(), ServiceError::NotFound);
    let page = list_files(&store, &query(Some("w1"), None, None));
    assert!(page.files.is_empty());
    assert_eq!(page.total, 0);
    let url = download_file(&store, &id, "bucket").unwrap();
    assert_eq!(url, format!("https://bucket.s3.amazonaws.com/{}", f.storage_key));
}

#[test]
fn download_errors() {
    let store = FileStore::new();
    assert_eq!(download_file(&store, "zz", "b").unwrap_err(), ServiceError::InvalidArgument);
    assert_eq!(download_file(&store, "aaaaaaaaaaaaaaaaaaaaaaaa", "b").unwrap_err(), ServiceError::NotFound);
}

#[test]
fn share_is_idempotent() {
    let mut store = FileStore::new();
    let id = upload_file(&mut store, upload("w1", None)).unwrap().id.unwrap();
    let url = share_file(&mut store, &id).unwrap();
    assert_eq!(url, format!("/files/{}/download", id));
    share_file(&mut store, &id).unwrap();
    assert!(get_file(&store, &id).unwrap().file.is_public);
    assert_eq!(share_file(&mut store, "bad").unwrap_err(), ServiceError::InvalidArgument);
}

#[test]
fn list_defaults_and_cap() {
    let mut store = FileStore::new();
    for _ in 0..105 {
        upload_file(&mut store, upload("w1", None)).unwrap();
    }
    assert_eq!(list_files(&store, &query(None, None, None)).files.len(), 50);
    assert_eq!(list_files(&store, &query(None, None, Some(1000))).files.len(), 100);
    assert_eq!(list_files(&store, &query(None, None, Some(-4))).files.len(), 0);
    assert_eq!(list_files(&store, &query(None, None, None)).total, 105);
}

#[test]
fn urls_are_exact() {
    assert_eq!(download_url("abc"), "/files/abc/download");
    assert_eq!(presigned_url("b1", "files/w/k"), "https://b1.s3.amazonaws.com/files/w/k");
}

#[test]
fn list_is_newest_first() {
    let mut store = FileStore::new();
    for ws in ["a", "b", "c"] {
        upload_file(&mut store, upload(ws, None)).unwrap();
    }
    let page = list_files(&store, &query(None, None, None));
    assert_eq!(page.files.len(), 3);
    assert!(page.files.windows(2).all(|w| w[0].created_at >= w[1].created_at));
    assert_eq!(page.files[0].workspace_id, "c");
}
