//! Validation engine for CSAF security advisories: rule catalogues per
//! specification version, identifier resolution across severity tiers,
//! preset expansion and result aggregation.

pub mod catalogue;
pub mod csaf2_0;
pub mod csaf2_1;
pub mod csaf_traits;
pub mod registry;
pub mod text;
pub mod validation;
pub mod validations;
