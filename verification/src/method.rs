//! HTTP methods that endpoints can be registered for.

use vstd::prelude::*;

verus! {

/// An HTTP method.  An endpoint is declared either for one method or as a
/// catch-all (represented elsewhere as the absence of a method).
#[derive(Clone, Copy, Debug, PartialEq, Eq, Structural, Hash)]
pub enum Method {
    Get,
    Head,
    Put,
    Post,
    Delete,
    Options,
    Connect,
    Patch,
    Trace,
}

} // verus!
