//! Messages that layouts respond to.
use vstd::prelude::*;

verus! {

/// Alter the number of clients contained in the main area of the layout.
#[derive(Debug, Copy, Clone, PartialEq, Eq)]
pub struct IncMain(pub i8);

/// Expand the size of the main area of the layout.
#[derive(Debug, Copy, Clone, PartialEq, Eq)]
pub struct ExpandMain;

/// Shrink the size of the main area of the layout.
#[derive(Debug, Copy, Clone, PartialEq, Eq)]
pub struct ShrinkMain;

/// Rotate the layout to a new orientation.
#[derive(Debug, Copy, Clone, PartialEq, Eq)]
pub struct Rotate;

/// Mirror the layout over either the horizontal or vertical axis.
#[derive(Debug, Copy, Clone, PartialEq, Eq)]
pub struct Mirror;

/// Unwrap a layout transformer, if one is in use.
#[derive(Debug, Copy, Clone, PartialEq, Eq)]
pub struct UnwrapTransformer;

/// Sent to a layout when it is no longer visible: the layout changed on a visible
/// workspace, or the workspace itself was hidden.
#[derive(Debug, Copy, Clone, PartialEq, Eq)]
pub struct Hide;

/// The number of clients in the main area after an [IncMain] message: `n` more, or
/// fewer but not below none.
pub fn inc_main(max_main: u32, m: IncMain) -> (r: u32)
    requires
        m.0 != i8::MIN,
        m.0 >= 0 ==> max_main + m.0 <= u32::MAX,
    ensures
        r == (if m.0 < 0 {
            if max_main + m.0 >= 0 {
                max_main + m.0
            } else {
                0
            }
        } else {
            max_main + m.0
        }),
{
    let n = m.0;
    if n < 0 {
        max_main.saturating_sub((-n) as u32)
    } else {
        max_main + n as u32
    }
}

} // verus!
