//! A retrieved picture: its target filename and its bytes.

use vstd::prelude::*;

verus! {

/// One downloaded image, ready to be persisted.
pub struct Pic {
    /// Name of the file to write, derived from the asset URL's final
    /// path segment.
    pub filename: String,
    /// The raw image bytes.
    pub body: Vec<u8>,
}

/// Mathematical image of a `Pic`.
pub struct PicView {
    pub filename: Seq<char>,
    pub body: Seq<u8>,
}

impl View for Pic {
    type V = PicView;

    open spec fn view(&self) -> PicView {
        PicView { filename: self.filename@, body: self.body@ }
    }
}

impl DeepView for Pic {
    type V = PicView;

    open spec fn deep_view(&self) -> PicView {
        self.view()
    }
}

impl Pic {
    pub fn new(filename: String, body: Vec<u8>) -> (p: Pic)
        ensures
            p.filename == filename,
            p.body == body,
    {
        Pic { filename, body }
    }
}

} // verus!
