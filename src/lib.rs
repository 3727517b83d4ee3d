//! The request engine of a desktop HTTP client: building outgoing requests, importing
//! cURL command lines, and formatting and highlighting JSON responses.
pub mod codec;
pub mod curl;
pub mod display;
pub mod highlight;
pub mod model;
pub mod pretty;
pub mod request;
pub mod text;

pub use curl::{parse_curl, ParsedCurl};
pub use display::{format_size, truncate_str};
pub use highlight::{tokenize, Span, Style};
pub use model::{Auth, AuthKind, HistoryEntry, Method, RequestSpec, Response};
pub use pretty::{format_json, highlight, json_to_spans};
pub use request::{prepare_request, url_with_params, OutgoingRequest};
pub use text::text_lines;
