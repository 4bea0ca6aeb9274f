//! The attachment upload policy and its decisions. The multipart reading
//! and MIME sniffing happen outside the library and hand in the sniffed
//! type and running size.

use vstd::prelude::*;

use crate::permissions::names_contain;
use crate::text;

verus! {

/// What attachment uploads the gateway accepts.
#[derive(Debug, Clone)]
pub struct AttachmentPolicy {
    /// Whether to accept attachments at all.
    pub enabled: bool,
    /// Maximum size in bytes per file.
    pub max_size_bytes: usize,
    /// Allowed MIME types.
    pub allowed_mime_types: Vec<String>,
    /// Where to store attachments, relative to the workspace.
    pub storage_directory: String,
}

impl Default for AttachmentPolicy {
    fn default() -> (r: Self)
        ensures
            !r.enabled,
            r.max_size_bytes == 10485760,
            r.allowed_mime_types@.len() == 5,
            r.allowed_mime_types@[0]@ == "image/png"@,
            r.allowed_mime_types@[1]@ == "image/jpeg"@,
            r.allowed_mime_types@[2]@ == "image/webp"@,
            r.allowed_mime_types@[3]@ == "text/plain"@,
            r.allowed_mime_types@[4]@ == "application/pdf"@,
            r.storage_directory@ == "attachments"@,
    {
        let mut allowed_mime_types: Vec<String> = Vec::new();
        allowed_mime_types.push(String::from_str("image/png"));
        allowed_mime_types.push(String::from_str("image/jpeg"));
        allowed_mime_types.push(String::from_str("image/webp"));
        allowed_mime_types.push(String::from_str("text/plain"));
        allowed_mime_types.push(String::from_str("application/pdf"));
        AttachmentPolicy {
            enabled: false,
            max_size_bytes: 10485760,
            allowed_mime_types,
            storage_directory: String::from_str("attachments"),
        }
    }
}

impl AttachmentPolicy {
    /// Is this sniffed MIME type on the allow-list?
    pub fn mime_allowed(&self, mime: &str) -> (r: bool)
        ensures
            r == names_contain(self.allowed_mime_types@, mime@),
    {
        let count = self.allowed_mime_types.len();
        for i in 0..count
            invariant
                count == self.allowed_mime_types@.len(),
                forall|j: int| 0 <= j < i ==> self.allowed_mime_types@[j]@ != mime@,
        {
            if text::str_eq(self.allowed_mime_types[i].as_str(), mime) {
                return true;
            }
        }
        false
    }

    /// Would the upload still be within the size bound after this chunk?
    pub fn size_within_limit(&self, size_so_far: usize, chunk_len: usize) -> (r: bool)
        ensures
            r == (size_so_far + chunk_len <= self.max_size_bytes),
    {
        chunk_len <= self.max_size_bytes && size_so_far <= self.max_size_bytes - chunk_len
    }
}

} // verus!
