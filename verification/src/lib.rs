//! Verified core of a slideshow-to-video converter.
//!
//! The library turns an ordered sequence of still images, each tagged with a
//! display duration, into the decisions a transcoding pipeline needs:
//! time-base derivation, timestamp stamping and rescaling, codec selection,
//! output geometry, the scaler-plan cache, the drain protocol, and the
//! orchestrator's state machine.  The surrounding process performs the codec
//! and file work and feeds every outcome back into the verified core.

pub mod archive;
pub mod codec;
pub mod errors;
pub mod pipeline;
pub mod scale;
pub mod timebase;

pub use codec::{CodecKind, CodecPoll};
pub use errors::ConvertError;
pub use pipeline::{Frame, Phase, Pipeline, SourcePacket};
pub use scale::{OutGeometry, ScalerState, SrcGeometry};
pub use timebase::TimeBase;
