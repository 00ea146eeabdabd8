//! Execution core for dataflow nodes: port binding, message envelopes,
//! the node lifecycle, and the per-node payload logic of the sources,
//! operators and sinks that plug into a streaming graph.
pub mod accumulate;
pub mod camera;
pub mod config;
pub mod counter;
pub mod detect;
pub mod error;
pub mod lifecycle;
pub mod message;
pub mod ports;
pub mod random;
pub mod sink;

pub use accumulate::{Accumulator, SumAndSend};
pub use camera::{CameraSource, CameraState, DEFAULT_DELAY_MS, DEFAULT_HEIGHT, DEFAULT_WIDTH};
pub use config::{delay_for_fps, parse_resolution};
pub use counter::{CountSource, Counter, COUNT_INTERVAL_MS};
pub use detect::{
    annotations, scale_region, FDState, FaceDetection, Region, MIN_NEIGHBORS, MIN_REGION_SIDE,
    REDUCTION,
};
pub use error::{InvocationError, SetupError};
pub use lifecycle::{Event, Lifecycle, Phase};
pub use message::{ControlKind, Message};
pub use ports::{bind, Direction, Port, PortTable};
pub use random::RandomSource;
pub use sink::{
    display_actions, DisplayAction, GenericSink, RecordLine, SinkAction, SinkState, VideoSink,
    WAIT_KEY_MS,
};
