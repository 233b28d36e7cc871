//! Composite widgets of the pages.
use vstd::prelude::*;

verus! {

/// Namespace of the composite widgets the pages draw; drawing them is the
/// front end's part.
pub struct Widgets;

} // verus!
