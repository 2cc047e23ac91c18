//! Composable metric groups and the protocol by which they write themselves
//! into an encoding target.
pub mod label;
pub mod metric;
pub mod text;
