//! Camera movement commands.
//!
//! The camera itself is floating-point view state and lives with the
//! rendering application; the library defines only the movement options,
//! abstracted away from window-system specific input methods.

use vstd::prelude::*;

verus! {

/// One camera movement command.
#[derive(Clone, Copy, Debug, PartialEq, Eq, Structural)]
pub enum CameraMovement {
    FORWARD,
    BACKWARD,
    LEFT,
    RIGHT,
}

} // verus!
