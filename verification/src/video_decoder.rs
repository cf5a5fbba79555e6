//! The place of the frame decoder.

use vstd::prelude::*;
use vstd::string::StringExecFns;

verus! {

/// A decoder of video frames. No decoder is built in: frames come from the
/// application around this library, and opening a decoder always fails.
pub struct VideoDecoder {}

/// What opening a decoder answers.
pub open spec fn not_implemented() -> Seq<char> {
    "VideoDecoder is not yet implemented. All GStreamer code has been removed."@
}

impl VideoDecoder {
    /// Opens a decoder for the file at `_path`. This always fails, with the
    /// message [`not_implemented`].
    pub fn new(_path: &str) -> (decoder: Result<Self, String>)
        ensures
            decoder matches Err(message) && message@ == not_implemented(),
    {
        Err(
            String::from_str(
                "VideoDecoder is not yet implemented. All GStreamer code has been removed.",
            ),
        )
    }
}

} // verus!
