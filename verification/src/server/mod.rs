//! The demo server: requests, forms, responses and what is generated for them.

pub mod form;
pub mod request;
pub mod response;
pub mod jobs;
pub mod wire_laws;
pub mod job_laws;
