//! An authentication gate for inbound HTTP requests.
//!
//! Each request's headers are classified: a request whose `authorization`
//! header carries a `Bearer ` credential marker continues unchanged; any
//! other request is short-circuited with a `302` redirect that sends the
//! caller to an identity provider's login endpoint, carrying the original
//! destination as a percent-encoded `redirect_uri` query parameter.

pub mod bytes;
pub mod encoding;
pub mod gate;
pub mod laws;
