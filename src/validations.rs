//! The individual tests of the CSAF standard.

pub mod test_6_1_23;
