//! Helpers for OAuth2 clients: PKCE pairs (RFC 7636), URL-safe random
//! tokens, and URL-safe base64 without padding (RFC 4648, section 5).
pub mod consts;
pub mod errors;
pub mod pkce;
pub mod urlsafe;
