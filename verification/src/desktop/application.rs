//! The views of the desktop front end.
use vstd::prelude::*;

verus! {

#[derive(Debug, Clone, Copy, Hash, PartialEq, Eq, Structural)]
pub enum ViewType {
    Login,
    Room,
    Settings,
}

} // verus!
