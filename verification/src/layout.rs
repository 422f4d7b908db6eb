//! Placement vocabulary shared by edge widget groups.

use vstd::prelude::*;

verus! {

/// Physical edge used by edge widget groups.
#[derive(Debug, Clone, Copy, PartialEq, Eq, Hash, Structural)]
pub enum Edge {
    Top,
    Right,
    Bottom,
    Left,
}

/// Layer-shell reservation and visibility behavior.
#[derive(Debug, Clone, Copy, PartialEq, Eq, Hash, Structural)]
pub enum LayerPolicy {
    Overlay,
    Reserve,
    AutoHide,
}

} // verus!

verus! {

/// Visibility assumed for a widget instance whose layout entry names none.
pub fn default_visible() -> (res: bool)
    ensures
        res,
{
    true
}

} // verus!
