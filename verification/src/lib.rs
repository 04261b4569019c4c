//! A minimal HTTP/1.1 server core: a wire-format parser for requests, a
//! serializer for responses, and the routing decisions of the surrounding
//! server, all stated over byte sequences and verified. The surrounding
//! program owns the sockets, the worker threads and the file system; it
//! hands this library plain bytes and performs the file operations the
//! routing decisions call for.
pub mod error;
pub mod headers;
pub mod num;
pub mod parse;
pub mod request;
pub mod response;
pub mod route;
pub mod status;
pub mod text;

pub use crate::error::ParseErrorKind;
pub use crate::error::ParseSteamError;
pub use crate::parse::parse_request;
pub use crate::request::Method;
pub use crate::request::Request;
pub use crate::response::Response;
pub use crate::route::file_path;
pub use crate::route::file_read_reply;
pub use crate::route::file_write_reply;
pub use crate::route::handle_request;
pub use crate::route::HandleStep;
pub use crate::status::StatusCode;
