use vstd::prelude::*;

verus! {

/// What a frame received on the game socket carries.
#[derive(Clone, Copy, Debug, PartialEq, Eq, Structural)]
pub enum FrameKind {
    Blob,
    Text,
    ArrayBuffer,
    Unknown,
}

/// What the client does with a received frame.
#[derive(Clone, Copy, Debug, PartialEq, Eq, Structural)]
pub enum FrameAction {
    /// Read the blob as an array buffer; the bytes join the binary queue
    /// once read (see `JSGameContext::on_blob_loaded`).
    ReadAsArrayBuffer,
    /// Only note the frame in the console; nothing is queued.
    LogOnly,
}

/// Only blob frames reach the game: they are read and queued. Text frames,
/// bare array buffers and anything else are only logged.
pub fn frame_action(kind: FrameKind) -> (r: FrameAction)
    ensures
        r == (if kind == FrameKind::Blob {
            FrameAction::ReadAsArrayBuffer
        } else {
            FrameAction::LogOnly
        }),
{
    match kind {
        FrameKind::Blob => FrameAction::ReadAsArrayBuffer,
        _ => FrameAction::LogOnly,
    }
}

} // verus!
