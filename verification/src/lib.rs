//! Health probing for live streams published on an nginx-rtmp server.
//!
//! The library parses the XML statistics document that the server's stats
//! endpoint returns, isolates the record of one configured stream, and
//! classifies its video bitrate against operator-configured thresholds into
//! a scene-switching decision. Fetching the document over HTTP is left to
//! the caller: every function here is a pure computation on the response
//! body and the configuration.

pub mod engine;
pub mod report;
pub mod stats;
pub mod xml;
