//! A static text panel: the data the render layer draws as a framed box.

use vstd::prelude::*;

verus! {

/// A block of text with an optional title, a size, and whether to draw a
/// frame around it.
#[derive(Debug)]
pub struct TextBox {
    pub title: Option<String>,
    pub text: String,
    pub width: u32,
    pub height: u32,
    pub frame: bool,
}

impl TextBox {
    /// A panel with exactly the given contents.
    pub fn new(title: Option<String>, text: String, width: u32, height: u32, frame: bool) -> (r:
        TextBox)
        ensures
            r.title == title,
            r.text == text,
            r.width == width,
            r.height == height,
            r.frame == frame,
    {
        TextBox { title, text, width, height, frame }
    }
}

} // verus!
