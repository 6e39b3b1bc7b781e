//! Core of a small self-hosting HTTPS site: certificate-cache key
//! derivation and durable certificate storage, the ACME HTTP-01
//! challenge responder, HTTP-to-HTTPS redirection, a token-bucket
//! admission limiter, the certificate orchestration state machine,
//! shutdown coordination across the two listeners, and the HTML
//! fragments the site's pages are built from.
//!
//! Every function here carries a contract checked by Verus; the few
//! calls into outside crates (the digest, the base64 encoder, the
//! authority parser) stand behind trusted wrappers whose contracts
//! name exactly what is relied on.

pub mod cache;
pub mod challenge;
pub mod html;
pub mod limiter;
pub mod orchestrator;
pub mod redirect;
pub mod shutdown;
pub mod strings;
