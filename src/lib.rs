//! Client-side core of a container-registry dashboard: the route grammar
//! that maps a location to a view, the catalog request and how its response
//! is classified, and the store that owns the catalog's fetch status.

pub mod catalog;
pub mod detail;
pub mod percent;
pub mod route;
pub mod store;
mod text;
