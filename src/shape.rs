use vstd::prelude::*;

verus! {

/// The shape that the demo currently shows.
#[derive(Clone, Copy, Debug, PartialEq, Eq, Structural)]
pub enum ShapeToDraw {
    Triangle,
    SierpinskiPoints,
    RandomLines,
}

/// How the vertex data of a shape is assembled by the renderer.
#[derive(Clone, Copy, Debug, PartialEq, Eq, Structural)]
pub enum Primitive {
    Triangles,
    Points,
    Lines,
}

/// A mouse button, as far as the demo tells them apart.
#[derive(Clone, Copy, Debug, PartialEq, Eq, Structural)]
pub enum MouseButton {
    Left,
    Other,
}

/// What happened to a mouse button.
#[derive(Clone, Copy, Debug, PartialEq, Eq, Structural)]
pub enum ButtonAction {
    Press,
    Release,
    Repeat,
}

/// The primitive each shape is drawn with.
pub open spec fn primitive_of(s: ShapeToDraw) -> Primitive {
    match s {
        ShapeToDraw::Triangle => Primitive::Triangles,
        ShapeToDraw::SierpinskiPoints => Primitive::Points,
        ShapeToDraw::RandomLines => Primitive::Lines,
    }
}

/// The shape that follows `s` in the cycle
/// Triangle -> SierpinskiPoints -> RandomLines -> Triangle.
pub open spec fn successor(s: ShapeToDraw) -> ShapeToDraw {
    match s {
        ShapeToDraw::Triangle => ShapeToDraw::SierpinskiPoints,
        ShapeToDraw::SierpinskiPoints => ShapeToDraw::RandomLines,
        ShapeToDraw::RandomLines => ShapeToDraw::Triangle,
    }
}

/// A click is the release of the left button.
pub open spec fn is_click(button: MouseButton, action: ButtonAction) -> bool {
    button == MouseButton::Left && action == ButtonAction::Release
}

impl ShapeToDraw {
    pub fn to_prim(&self) -> (r: Primitive)
        ensures
            r == primitive_of(*self),
    {
        match *self {
            ShapeToDraw::Triangle => Primitive::Triangles,
            ShapeToDraw::SierpinskiPoints => Primitive::Points,
            ShapeToDraw::RandomLines => Primitive::Lines,
        }
    }

    /// The next shape in the cycle.
    pub fn next(&self) -> (r: ShapeToDraw)
        ensures
            r == successor(*self),
    {
        match *self {
            ShapeToDraw::Triangle => ShapeToDraw::SierpinskiPoints,
            ShapeToDraw::SierpinskiPoints => ShapeToDraw::RandomLines,
            ShapeToDraw::RandomLines => ShapeToDraw::Triangle,
        }
    }

    /// The shape to show after a mouse button event: a click advances the
    /// cycle, any other event leaves the selection as it is.
    pub fn on_mouse_button(&self, button: MouseButton, action: ButtonAction) -> (r: ShapeToDraw)
        ensures
            is_click(button, action) ==> r == successor(*self),
            !is_click(button, action) ==> r == *self,
    {
        if button == MouseButton::Left && action == ButtonAction::Release {
            self.next()
        } else {
            *self
        }
    }
}

/// Three clicks bring the selection back to where it started, and no fewer
/// do: every shape is reached.
pub proof fn lemma_cycle_of_three(s: ShapeToDraw)
    ensures
        successor(successor(successor(s))) == s,
        successor(s) != s,
        successor(successor(s)) != s,
{
}

} // verus!
