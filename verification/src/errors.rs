use vstd::prelude::*;

verus! {

/// The failure modes of a conversion run.
///
/// The two non-fatal drain signals of a codec stage ("try again later" and
/// "end of stream") are control flow, not errors, and never appear here.
#[derive(Clone, Copy, Debug, PartialEq, Eq, Structural)]
pub enum ConvertError {
    /// The caller supplied zero frames.
    EmptyInput,
    /// No decoder or encoder is available for the required codec kind.
    UnsupportedCodec,
    /// The archive holds no entry under the requested name.
    EntryNotFound,
    /// The archive could not be read or an entry could not be decompressed.
    IoError,
    /// A decoder, scaler, encoder or muxer failed; the payload is the
    /// platform error code of the failing call.
    CodecError(i32),
}

} // verus!
