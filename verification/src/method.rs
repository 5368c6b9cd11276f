//! The HTTP methods a route can be registered under.

use vstd::prelude::*;

verus! {

/// An HTTP request method. The registration surface covers the methods the
/// router can key a handler on; requests carrying any of them dispatch
/// through the same table.
#[derive(Clone, Copy, PartialEq, Eq, Structural, Debug, Hash)]
pub enum Method {
    Get,
    Post,
    Put,
    Delete,
    Head,
    Options,
    Patch,
    Trace,
    Connect,
}

} // verus!
