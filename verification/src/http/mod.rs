//! HTTP messages and their wire formats.

pub mod codec;
pub mod header;
pub mod message;
pub mod method;
pub mod protocol;
pub mod scheme;
pub mod status;
pub mod status_code;
pub mod v1;
pub mod v2;
pub mod version;

pub use header::Header;
pub use message::{Request, RequestBuilder, Response, ResponseBuilder, SerDe};
pub use method::Method;
pub use scheme::Scheme;
pub use status::Status;
pub use status_code::StatusCode;
pub use version::Version;
