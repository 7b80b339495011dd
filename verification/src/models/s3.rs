//! Multipart upload payloads.
use vstd::prelude::*;

verus! {

/// What the object store answers to the start of a multipart upload.
pub struct MultipartInitResultS3 {
    pub upload_id: String,
    pub parts: Vec<PartUploadUrl>,
}

/// A stored file's metadata. Instants are microseconds since the epoch.
pub struct FileMetadata {
    pub id: String,
    pub name: String,
    pub s3_key: String,
    pub path: String,
    pub mime_type: Option<String>,
    pub size: i64,
    pub is_folder: bool,
    pub parent_id: Option<String>,
    pub owner_id: String,
    pub visibility: String,
    pub created_at: i64,
    pub updated_at: i64,
}

/// A request to start a multipart upload.
pub struct InitUploadRequest {
    pub file_name: String,
    pub content_type: String,
    pub file_size: i64,
    pub total_parts: i32,
    pub parent_id: Option<String>,
    pub task_id: Option<String>,
}

/// The upload URL of one part.
pub struct PartUploadUrl {
    pub part_number: i32,
    pub url: String,
}

/// A started multipart upload.
pub struct MultipartUploadInit {
    pub upload_id: String,
    pub file_id: String,
    pub s3_key: String,
    pub parts: Vec<PartUploadUrl>,
}

/// A request to finish a multipart upload.
pub struct CompleteMultipartRequest {
    pub upload_id: String,
    pub file_id: String,
    pub s3_key: String,
    pub parts: Vec<CompletedPart>,
}

/// A request to abandon a multipart upload.
pub struct AbortMultipartRequest {
    pub upload_id: String,
    pub file_id: String,
    pub s3_key: String,
}

/// An uploaded part.
pub struct CompletedPart {
    pub part_number: i32,
    pub etag: String,
}

} // verus!
