//! Shapes of an inbound chat request and of its response.

use vstd::prelude::*;

verus! {

/// A file sent along with a prompt.
#[derive(Debug, PartialEq, Eq)]
pub struct FileAttachment {
    /// The content, base64 encoded.
    pub base64: String,
    /// The declared media type.
    pub mimetype: String,
}

/// What a [`FileAttachment`] holds, as text.
pub struct FileAttachmentView {
    pub base64: Seq<char>,
    pub mimetype: Seq<char>,
}

impl View for FileAttachment {
    type V = FileAttachmentView;

    open spec fn view(&self) -> FileAttachmentView {
        FileAttachmentView { base64: self.base64@, mimetype: self.mimetype@ }
    }
}

impl DeepView for FileAttachment {
    type V = FileAttachmentView;

    open spec fn deep_view(&self) -> FileAttachmentView {
        self@
    }
}

impl Clone for FileAttachment {
    fn clone(&self) -> (copy: Self)
        ensures
            copy == *self,
    {
        FileAttachment { base64: self.base64.clone(), mimetype: self.mimetype.clone() }
    }
}

/// One chat request as it arrives.
#[derive(Debug, PartialEq, Eq)]
pub struct ChatRequest {
    pub prompt: String,
    pub session_id: Option<String>,
    pub files: Option<Vec<FileAttachment>>,
}

/// The answer to one chat request.
#[derive(Debug, PartialEq, Eq)]
pub struct ChatResponse {
    pub response: String,
    pub session_id: String,
}

impl Clone for ChatResponse {
    fn clone(&self) -> (copy: Self)
        ensures
            copy == *self,
    {
        ChatResponse { response: self.response.clone(), session_id: self.session_id.clone() }
    }
}

} // verus!
