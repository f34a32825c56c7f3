//! Framing, parsing and mail relay logic for a contact-form endpoint.
//!
//! The library turns a stream of TCP reads into an HTTP-shaped request
//! (header, then a length-bounded body), decodes the form fields of that
//! body into a contact message, and drives the client side of an SMTP
//! session as a state machine. Reading, writing and encryption are left to
//! the caller, who hands in what arrived and performs what is asked.

pub mod bytes;
pub mod error;
pub mod frame;
pub mod header;
pub mod body;
pub mod form;
pub mod smtp;
