//! Button-state messages exchanged over the companion serial channel.

use vstd::prelude::*;

verus! {

/// A message from the button board: whether the button is pressed.
#[derive(Clone, Copy, Debug, PartialEq, Eq, Structural)]
pub enum Message {
    Button(bool),
}

} // verus!
