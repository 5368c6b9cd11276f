//! A small request-routing library: a route table keyed by path pattern and
//! HTTP method, and a dispatch algorithm that selects the handler a request
//! should be served by (method handler first, then the pattern's catchall,
//! then a synthesized not-found response).

pub mod assoc;
pub mod context;
pub mod matcher;
pub mod method;
pub mod route;
pub mod router;
pub mod service;
