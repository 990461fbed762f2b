//! Privacy-preserving proof-of-delivery documents.
//!
//! A delivery document is an ordered set of claims, each marked public or
//! private, signed by one of several authorised issuers.  The holder can
//! later prove that the document was validly signed by *one of* a list of
//! candidate keys, disclosing only the public claims and never which key
//! actually signed.

pub mod claims;
pub mod form;
pub mod guest;
pub mod hex;
pub mod jwk;
pub mod output;
pub mod receipt;
pub mod token;
mod strutil;
pub mod wire;
