//! A chat gateway's verified core: the redactor that finds personal data in a
//! message and replaces it, and the decisions the gateway takes around one
//! upstream call (audit lines, reply or fallback, the response).

pub mod gateway;
pub mod redact;
