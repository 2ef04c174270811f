//! Update-and-launch supervisor core for a two-part client/server
//! application: release resolution, artifact fetching, archive
//! extraction, port reclamation and process supervision, with the
//! decision logic verified and the I/O kept at the edges.

pub mod archive;
pub mod errors;
pub mod fetch;
pub mod ports;
pub mod release;
pub mod supervisor;
pub mod text;
