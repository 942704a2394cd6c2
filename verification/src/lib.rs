//! A minimal paste-sharing service core: paste-identifier generation, the
//! access-control gate in front of the editor view, request-parameter
//! normalization, the route decision tree, and service-configuration
//! resolution. Transport, template rendering and static-file serving live
//! outside this crate and act on the directives it returns.

pub mod config;
pub mod db;
pub mod handlers;
pub mod routes;
