//! Core types for the oxideav media framework: rationals and time
//! bases, media formats and channel layouts, frames and attached
//! pictures, stream parameters, the arena pool behind decoder frame
//! allocations, and the registries that map names to container and
//! source drivers.

use vstd::prelude::*;

pub mod arena;
pub mod error;
pub mod execution;
pub mod format;
pub mod frame;
pub mod picture;
pub mod rational;
pub mod registry;
pub mod stream;
pub mod text;
pub mod time;
pub mod vector;

pub use error::Error;
pub use execution::ExecutionContext;
pub use format::{ChannelLayout, ChannelPosition, MediaType, PixelFormat, SampleFormat};
pub use frame::{AudioFrame, VideoFrame, VideoPlane};
pub use picture::{AttachedPicture, PictureType};
pub use rational::Rational;
pub use registry::container::{
    ContainerRegistry, Demuxer, ExtensionCandidate, Muxer, ProbeCandidate,
    ProbeData, ProbeScore, DEFAULT_PRIORITY, MAX_PROBE_SCORE, PROBE_SCORE_EXTENSION,
};
pub use registry::source::{SourceOpener, SourceRegistry};
pub use stream::{
    CodecId, CodecParameters, CodecResolver, CodecTag, DecoderLimits, NullCodecResolver,
    ProbeContext, StreamInfo,
};
pub use time::{TimeBase, Timestamp};
pub use vector::{FillRule, LineCap, LineJoin, MaskKind, Rgba, SpreadMethod};

verus! {

} // verus!
