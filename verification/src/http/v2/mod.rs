//! HTTP/2: frames, settings, error codes, streams and the connection state
//! machine.

pub mod codec;
pub mod connection;
pub mod error;
pub mod flags;
pub mod frame;
pub mod preface;
pub mod settings;
pub mod stream;

pub use error::Error as ErrorCode;
pub use frame::Frame;
pub use frame::Type as FrameType;
pub use preface::Preface;
