use vstd::prelude::*;
use vstd::string::StringSliceAdditionalSpecFns;

use crate::errors::ConvertError;

verus! {

/// The two still-image codec kinds the decode stage can be opened with.
/// The choice is made once, from the first frame's filename, and holds for
/// the whole run.
#[derive(Clone, Copy, Debug, PartialEq, Eq, Structural)]
pub enum CodecKind {
    Png,
    Mjpeg,
}

/// ASCII upper-case letters folded to lower case; every other byte kept.
pub open spec fn lower_ascii(b: u8) -> u8 {
    if 'A' as u8 <= b <= 'Z' as u8 {
        (b + 32) as u8
    } else {
        b
    }
}

/// Whether the final three bytes of `name` spell "png", case-insensitively.
pub open spec fn names_png(name: Seq<u8>) -> bool {
    &&& name.len() >= 3
    &&& lower_ascii(name[name.len() - 3]) == 'p' as u8
    &&& lower_ascii(name[name.len() - 2]) == 'n' as u8
    &&& lower_ascii(name[name.len() - 1]) == 'g' as u8
}

/// The codec kind a filename selects: "png" endings select the PNG decoder,
/// everything else the baseline JPEG decoder.
pub open spec fn codec_for(name: Seq<u8>) -> CodecKind {
    if names_png(name) {
        CodecKind::Png
    } else {
        CodecKind::Mjpeg
    }
}

fn lower_byte(b: u8) -> (r: u8)
    ensures
        r == lower_ascii(b),
{
    if b >= 65 && b <= 90 {
        b + 32
    } else {
        b
    }
}

/// Inspects a filename and picks the decoder kind by its last three bytes.
pub fn select_codec(name: &str) -> (k: CodecKind)
    ensures
        k == codec_for(name.spec_bytes()),
{
    let bytes: &[u8] = name.as_bytes();
    let n: usize = bytes.len();
    if n >= 3 && lower_byte(bytes[n - 3]) == 112 && lower_byte(bytes[n - 2]) == 110
        && lower_byte(bytes[n - 1]) == 103 {
        CodecKind::Png
    } else {
        CodecKind::Mjpeg
    }
}

/// The fixed tuning of the H.264 encoder, not configurable by the caller:
/// constant quality factor "18" and the maximal-effort "veryslow" preset —
/// an offline batch conversion has no speed constraint.
pub fn encoder_tuning() -> (r: (&'static str, &'static str))
    ensures
        r.0@ == "18"@,
        r.1@ == "veryslow"@,
{
    ("18", "veryslow")
}

/// One outcome of pulling on a codec stage: a frame or packet was produced,
/// nothing is available right now, the stage has reached end of stream, or
/// it failed with a platform error code.
#[derive(Clone, Copy, Debug, PartialEq, Eq, Structural)]
pub enum CodecPoll {
    Produced,
    Again,
    Eof,
    Failed(i32),
}

/// The drain discipline: `Ok(true)` means an item arrived and the drain loop
/// continues; the two non-fatal signals end the loop with `Ok(false)`; any
/// other failure is fatal.
pub open spec fn wrap_result_spec(poll: CodecPoll) -> Result<bool, ConvertError> {
    match poll {
        CodecPoll::Produced => Ok(true),
        CodecPoll::Again => Ok(false),
        CodecPoll::Eof => Ok(false),
        CodecPoll::Failed(code) => Err(ConvertError::CodecError(code)),
    }
}

/// Classifies a codec stage's pull outcome for the drain loops: "try again
/// later" and "end of stream" terminate a drain normally, everything else
/// that is not an item is a fatal `CodecError`.
pub fn wrap_result(poll: CodecPoll) -> (r: Result<bool, ConvertError>)
    ensures
        r == wrap_result_spec(poll),
{
    match poll {
        CodecPoll::Produced => Ok(true),
        CodecPoll::Again => Ok(false),
        CodecPoll::Eof => Ok(false),
        CodecPoll::Failed(code) => Err(ConvertError::CodecError(code)),
    }
}

} // verus!
