use vstd::prelude::*;

verus! {

/// The keys pressed during the current frame, as read by the host.
#[derive(Clone, Copy, Debug, PartialEq, Eq, Structural)]
pub struct Keys {
    /// Advance: confirm the current node.
    pub space: bool,
    pub left: bool,
    pub right: bool,
}

/// An RGBA colour.
#[derive(Clone, Copy, Debug, PartialEq, Eq, Structural)]
pub struct Color {
    pub r: u8,
    pub g: u8,
    pub b: u8,
    pub a: u8,
}

impl Color {
    pub open spec fn white_spec() -> Color {
        Color { r: 255, g: 255, b: 255, a: 255 }
    }

    pub fn white() -> (c: Color)
        ensures
            c == Color::white_spec(),
    {
        Color { r: 255, g: 255, b: 255, a: 255 }
    }
}

/// A component's request, made during its update, to be replaced on the
/// stage by the component found under `namespace` and `content`.
pub struct Request {
    pub namespace: String,
    pub content: String,
}

} // verus!
