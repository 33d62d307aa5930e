//! A verified client library for the `jsonplaceholder.typicode.com` demo
//! REST service. It builds the request targets for the `todos` and `posts`
//! resources and decodes status and JSON response body into flat record
//! types; the accepted grammar and the built targets are stated exactly as
//! spec functions, and the decoders are proved against them.

pub mod json;
pub mod posts;
pub mod records;
pub mod response;
pub mod text;
pub mod todos;
pub mod urls;
