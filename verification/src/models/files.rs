//! File payloads.
use vstd::prelude::*;

verus! {

/// A stored file or folder. Instants are microseconds since the epoch.
pub struct File {
    pub id: String,
    pub name: String,
    pub s3_key: String,
    pub path: String,
    pub mime_type: Option<String>,
    pub size: i64,
    pub is_folder: bool,
    pub parent_id: Option<String>,
    pub owner_id: String,
    pub upload_status: Option<String>,
    pub visibility: String,
    pub created_at: i64,
    pub updated_at: i64,
}

/// A file in a list.
pub struct FileSmall {
    pub id: String,
    pub name: String,
    pub s3_key: Option<String>,
    pub mime_type: Option<String>,
    pub size: i64,
    pub owner_id: String,
}

/// The object-store key of a deleted file.
pub struct S3KeyRecord {
    pub s3_key: Option<String>,
}

/// A partial update of a file; absent fields stay as they are.
pub struct FileUpdate {
    pub name: Option<String>,
    pub path: Option<String>,
    pub parent_id: Option<String>,
}

/// The folder to list (the root where absent).
pub struct FileListParams {
    pub parent_id: Option<String>,
}

/// Where an upload goes.
pub struct UploadParams {
    pub parent_id: Option<String>,
    pub task_id: Option<String>,
}

/// A new folder.
pub struct CreateFolderRequest {
    pub name: String,
    pub parent_id: Option<String>,
}

/// A presigned download URL.
pub struct PresignedUrlResponse {
    pub url: String,
}

/// Presigned download URLs for several files.
pub struct BatchPresignedUrlResponse {
    pub urls: Vec<PresignedFileUrl>,
}

/// The presigned download URL of one file.
pub struct PresignedFileUrl {
    pub file_id: String,
    pub url: String,
}

} // verus!
