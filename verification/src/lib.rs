//! Request checks, CSV row building and response headers of a scouting data server.

pub mod cors;
pub mod forms;
pub mod guards;
pub mod logging;
pub mod routes;
pub mod scouting;
pub mod status;
pub mod text;
