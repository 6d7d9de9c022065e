//! Strandgut: the decision logic of a LAN service-scanner dashboard.

pub mod error;
pub mod text;
pub mod i18n;
pub mod paths;
pub mod config;
pub mod background;
pub mod spa;
pub mod scan;
pub mod sorting;
pub mod sse;
pub mod icons;
pub mod routes;
