//! A structured-text library for a multiplayer game server: styled component
//! trees with locale-aware translation, console rendering and a binary wire
//! encoding.

pub mod catalog;
pub mod color;
pub mod component;
pub mod console;
pub mod flatten;
pub mod render;
pub mod resolve;
pub mod shape;
pub mod strutil;
pub mod style;
pub mod template;
pub mod wire;

use vstd::prelude::*;

verus! {

/// A style attribute that is unset inherits from the nearest ancestor.
pub open spec fn inherit<T>(child: Option<T>, parent: Option<T>) -> Option<T> {
    if child is Some {
        child
    } else {
        parent
    }
}

} // verus!
