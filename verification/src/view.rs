//! The rectangle that the user drags out with the mouse, and what each mouse
//! event asks of the viewer.

use vstd::prelude::*;

verus! {

/// The mouse buttons that the viewer tells apart.
#[derive(Debug, Clone, Copy, PartialEq, Eq, Structural)]
pub enum MouseButton {
    Left,
    Middle,
    Other,
}

/// What the viewer has to do after a mouse event.
#[derive(Debug, Clone, Copy, PartialEq, Eq, Structural)]
pub enum ViewAction {
    /// Nothing.
    Idle,
    /// Render the current viewport again.
    Refresh,
    /// Make the selected pixel rectangle the next viewport.
    Zoom { left: usize, top: usize, right: usize, bottom: usize },
    /// The button has no meaning to the viewer.
    Unhandled,
}

/// The selection rectangle in pixel coordinates, and whether a selection is
/// going on.
#[derive(Debug, Clone, Copy, PartialEq, Eq, Structural)]
pub struct ViewWindow {
    pub selecting: bool,
    pub top: usize,
    pub left: usize,
    pub bottom: usize,
    pub right: usize,
}

/// The rectangle that marks a selection on the screen: its corner, and its
/// signed extent (negative when dragged to the left or upwards).
#[derive(Debug, Clone, Copy, PartialEq, Eq, Structural)]
pub struct SelectionFrame {
    pub x: usize,
    pub y: usize,
    pub w: i128,
    pub h: i128,
}

/// A window that has collapsed to the single point `(x, y)`.
pub open spec fn collapsed(selecting: bool, x: usize, y: usize) -> ViewWindow {
    ViewWindow { selecting, top: y, left: x, bottom: y, right: x }
}

impl Default for ViewWindow {
    fn default() -> (window: ViewWindow)
        ensures
            window == collapsed(false, 0, 0),
    {
        ViewWindow { selecting: false, top: 0, left: 0, bottom: 0, right: 0 }
    }
}

impl ViewWindow {
    /// The window after `button` went down at `(x, y)`: the left button
    /// starts a selection there, any other button leaves the window as it is.
    pub open spec fn pressed(self, button: MouseButton, x: usize, y: usize) -> ViewWindow {
        match button {
            MouseButton::Left => collapsed(true, x, y),
            _ => self,
        }
    }

    /// The window after `button` came up at `(x, y)`: the left button ends
    /// the selection and collapses the window to that point.
    pub open spec fn released(self, button: MouseButton, x: usize, y: usize) -> ViewWindow {
        match button {
            MouseButton::Left => collapsed(false, x, y),
            _ => self,
        }
    }

    /// The window after the mouse moved to `(x, y)`: during a selection the
    /// far corner follows the mouse.
    pub open spec fn dragged(self, x: usize, y: usize) -> ViewWindow {
        if self.selecting {
            ViewWindow { right: x, bottom: y, ..self }
        } else {
            self
        }
    }

    /// What a button that went down asks for.
    pub open spec fn press_action(button: MouseButton) -> ViewAction {
        match button {
            MouseButton::Left => ViewAction::Idle,
            MouseButton::Middle => ViewAction::Refresh,
            MouseButton::Other => ViewAction::Unhandled,
        }
    }

    /// What a button that came up asks for: the left button zooms to the
    /// rectangle that the window held until then.
    pub open spec fn release_action(self, button: MouseButton) -> ViewAction {
        match button {
            MouseButton::Left => ViewAction::Zoom {
                left: self.left,
                top: self.top,
                right: self.right,
                bottom: self.bottom,
            },
            MouseButton::Middle => ViewAction::Idle,
            MouseButton::Other => ViewAction::Unhandled,
        }
    }

    /// The frame to draw: none unless a selection is going on.
    pub open spec fn frame_spec(self) -> Option<SelectionFrame> {
        if self.selecting {
            Some(
                SelectionFrame {
                    x: self.left,
                    y: self.top,
                    w: (self.right - self.left) as i128,
                    h: (self.bottom - self.top) as i128,
                },
            )
        } else {
            None
        }
    }

    /// Handles a button that went down at `(x, y)`.
    pub fn mouse_button_down(&mut self, button: MouseButton, x: usize, y: usize) -> (action:
        ViewAction)
        ensures
            *final(self) == old(self).pressed(button, x, y),
            action == Self::press_action(button),
    {
        match button {
            MouseButton::Left => {
                self.selecting = true;
                self.left = x;
                self.top = y;
                self.right = x;
                self.bottom = y;
                ViewAction::Idle
            },
            MouseButton::Middle => ViewAction::Refresh,
            MouseButton::Other => ViewAction::Unhandled,
        }
    }

    /// Handles a button that came up at `(x, y)`.
    pub fn mouse_button_up(&mut self, button: MouseButton, x: usize, y: usize) -> (action:
        ViewAction)
        ensures
            *final(self) == old(self).released(button, x, y),
            action == old(self).release_action(button),
    {
        match button {
            MouseButton::Left => {
                let action = ViewAction::Zoom {
                    left: self.left,
                    top: self.top,
                    right: self.right,
                    bottom: self.bottom,
                };
                self.selecting = false;
                self.right = x;
                self.bottom = y;
                self.left = x;
                self.top = y;
                action
            },
            MouseButton::Middle => ViewAction::Idle,
            MouseButton::Other => ViewAction::Unhandled,
        }
    }

    /// Handles a mouse that moved to `(x, y)`.
    pub fn mouse_motion(&mut self, x: usize, y: usize)
        ensures
            *final(self) == old(self).dragged(x, y),
    {
        if self.selecting {
            self.right = x;
            self.bottom = y;
        }
    }

    /// The frame that marks the selection on the screen, while one is going on.
    pub fn frame(&self) -> (frame: Option<SelectionFrame>)
        ensures
            frame == self.frame_spec(),
    {
        if self.selecting {
            Some(
                SelectionFrame {
                    x: self.left,
                    y: self.top,
                    w: self.right as i128 - self.left as i128,
                    h: self.bottom as i128 - self.top as i128,
                },
            )
        } else {
            None
        }
    }
}

} // verus!
