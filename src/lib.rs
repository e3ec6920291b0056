//! A minimal HTTP/1.1 request framer, header parser, response encoder and
//! method/path router.

pub mod args;
pub mod body;
pub mod frame;
pub mod pattern;
pub mod payload;
pub mod request;
pub mod response;
pub mod route;
pub mod sample_routes;
pub mod search;
pub mod text;

pub use args::HTTPArgs;
pub use body::{BodyAssembler, BodyStatus};
pub use frame::{scan_frame, Frame};
pub use payload::Color;
pub use request::{DeconstructedHTTPRequest, HTTPRequest, HTTPRequestHeader, HeaderPart, RequestError};
pub use response::{http_err, http_ok, HTTPResponses, HTTPResult, Response};
pub use route::{Handler, RouteError, Router};
pub use sample_routes::{http_routes, SampleRoute};
