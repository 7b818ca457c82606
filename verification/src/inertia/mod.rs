//! The stand-alone Inertia middleware, which passes the pages that handlers
//! build through and wraps plain responses as pages.
pub mod middleware;

pub use middleware::InertiaMiddleware;
