//! Discovery and adoption logic for factory-default wireless access points.
pub mod codec;
pub mod scan;
pub mod text;
pub mod session;
pub mod script;
pub mod adopt;
pub mod api;
