use vstd::prelude::*;

verus! {

/// Mathematical value of a [`Blob`]: the storage key, the content type and
/// the object body as plain sequences.
pub struct BlobModel {
    pub path: Seq<char>,
    pub mime: Seq<char>,
    pub content: Seq<u8>,
}

/// A unit of upload work: a named binary object together with the content
/// type it is stored under. Two blobs with equal path, mime and content are
/// indistinguishable; a failed blob is re-submitted by value.
pub struct Blob {
    /// The storage key the object is written under.
    pub path: String,
    /// The content type sent along with the write.
    pub mime: String,
    /// The object body.
    pub content: Vec<u8>,
}

impl View for Blob {
    type V = BlobModel;

    open spec fn view(&self) -> BlobModel {
        BlobModel { path: self.path@, mime: self.mime@, content: self.content@ }
    }
}

impl DeepView for Blob {
    type V = BlobModel;

    open spec fn deep_view(&self) -> BlobModel {
        self.view()
    }
}

} // verus!
