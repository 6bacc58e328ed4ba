//! Building an HTTP/1.1 response and writing it out as text on the wire.

pub mod headers;
pub mod httpresponse;
pub mod text;
