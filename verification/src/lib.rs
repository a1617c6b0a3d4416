//! A verified core for a small user-management CRUD service.
//!
//! The library covers the request-validation, partial-update, repository and
//! error-classification pipeline of the service: payloads are validated,
//! updates apply exactly the fields that are present, and persistence
//! failures are mapped to a small user-facing error taxonomy.  The backing
//! table is modelled by [`store::UserStore`], whose operations carry full
//! functional contracts.

pub mod error;
pub mod mask;
pub mod model;
pub mod numeral;
pub mod service;
pub mod store;
pub mod strutil;
pub mod timefmt;
pub mod validation;
