//! Verified core of the Viontin gems: the InertiaJS server adapter, the
//! Tailwind class scanner and the desktop webview configuration.
pub mod gems;
pub mod json;
pub mod text;
pub mod tailwind;
pub mod webview;
pub mod http;
pub mod gem_inertia;
pub mod inertia;
