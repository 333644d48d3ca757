//! Pointer input: raw seat events, and what the renderer is told of them.

use vstd::prelude::*;

verus! {

/// The handle of a surface, as the connection numbers its objects.
pub type SurfaceId = u32;

/// The code the seat reports for the left button.
pub const BUTTON_LEFT: u32 = 272;

/// The code the seat reports for the right button.
pub const BUTTON_RIGHT: u32 = 273;

/// The code the seat reports for the middle button.
pub const BUTTON_MIDDLE: u32 = 274;

/// A pointer button the renderer knows.
#[derive(Debug, Clone, Copy, PartialEq, Eq, Structural)]
pub enum PointerButton {
    Left,
    Right,
    Middle,
}

/// A position on one surface, counted from that surface's own origin in
/// 256ths of a logical pixel: the unit in which the wire carries it.
#[derive(Debug, Clone, Copy, PartialEq, Eq, Structural)]
pub struct LogicalPosition {
    pub x: i32,
    pub y: i32,
}

/// What happened to the pointer. Of a press or release only the button code
/// is kept; of scrolling nothing.
#[derive(Debug, Clone, Copy, PartialEq, Eq, Structural)]
pub enum PointerEventKind {
    Enter,
    Leave,
    Motion,
    Press { button: u32 },
    Release { button: u32 },
    Axis,
}

/// A raw pointer event: the surface under the pointer, the position on that
/// surface, and what happened.
#[derive(Debug, Clone, Copy, PartialEq, Eq, Structural)]
pub struct PointerEvent {
    pub surface: SurfaceId,
    pub position: LogicalPosition,
    pub kind: PointerEventKind,
}

/// An event for the renderer.
#[derive(Debug, Clone, Copy, PartialEq, Eq, Structural)]
pub enum WindowEvent {
    PointerMoved { position: LogicalPosition },
    PointerPressed { position: LogicalPosition, button: PointerButton },
    PointerReleased { position: LogicalPosition, button: PointerButton },
}

/// What is known of the pointer from the raw events of one pass: which
/// buttons are held down, and where the pointer was last seen. It is made
/// anew for every pass and kept by nobody.
#[derive(Debug, Clone, Copy, PartialEq, Eq, Structural)]
pub struct PointerState {
    pub left: bool,
    pub right: bool,
    pub middle: bool,
    /// Where the pointer was last seen; nowhere after it left.
    pub position: Option<LogicalPosition>,
}

/// The button that a code stands for, if it is one of the three known.
pub open spec fn button_of(code: u32) -> Option<PointerButton> {
    if code == BUTTON_LEFT {
        Some(PointerButton::Left)
    } else if code == BUTTON_RIGHT {
        Some(PointerButton::Right)
    } else if code == BUTTON_MIDDLE {
        Some(PointerButton::Middle)
    } else {
        None
    }
}

/// What the renderer is told of a raw event: motion, and presses and
/// releases of known buttons, at the event's own position. Entering, leaving,
/// scrolling and unknown buttons tell it nothing.
pub open spec fn translation(event: PointerEvent) -> Option<WindowEvent> {
    match event.kind {
        PointerEventKind::Enter => None,
        PointerEventKind::Leave => None,
        PointerEventKind::Motion => Some(WindowEvent::PointerMoved { position: event.position }),
        PointerEventKind::Press { button } => match button_of(button) {
            Some(b) => Some(WindowEvent::PointerPressed { position: event.position, button: b }),
            None => None,
        },
        PointerEventKind::Release { button } => match button_of(button) {
            Some(b) => Some(WindowEvent::PointerReleased { position: event.position, button: b }),
            None => None,
        },
        PointerEventKind::Axis => None,
    }
}

impl PointerState {
    /// Nothing held down, the pointer nowhere.
    pub open spec fn idle() -> PointerState {
        PointerState { left: false, right: false, middle: false, position: None }
    }

    /// This state with the given button held down or let go.
    pub open spec fn with_button(self, button: PointerButton, down: bool) -> PointerState {
        match button {
            PointerButton::Left => PointerState { left: down, ..self },
            PointerButton::Right => PointerState { right: down, ..self },
            PointerButton::Middle => PointerState { middle: down, ..self },
        }
    }

    /// Whether the given button is held down.
    pub open spec fn holds(self, button: PointerButton) -> bool {
        match button {
            PointerButton::Left => self.left,
            PointerButton::Right => self.right,
            PointerButton::Middle => self.middle,
        }
    }

    /// The state after one more raw event: the pointer is where the event
    /// saw it, or nowhere if it left; a known button that was pressed is held
    /// down, one that was released is not.
    pub open spec fn after(self, event: PointerEvent) -> PointerState {
        let moved = PointerState {
            position: if event.kind is Leave {
                None
            } else {
                Some(event.position)
            },
            ..self
        };
        match event.kind {
            PointerEventKind::Press { button } => match button_of(button) {
                Some(b) => moved.with_button(b, true),
                None => moved,
            },
            PointerEventKind::Release { button } => match button_of(button) {
                Some(b) => moved.with_button(b, false),
                None => moved,
            },
            _ => moved,
        }
    }

    /// The state before any event of a pass.
    pub fn new() -> (state: Self)
        ensures
            state == PointerState::idle(),
    {
        PointerState { left: false, right: false, middle: false, position: None }
    }

    /// Whether the given button is held down.
    pub fn is_pressed(&self, button: PointerButton) -> (held: bool)
        ensures
            held == self.holds(button),
    {
        match button {
            PointerButton::Left => self.left,
            PointerButton::Right => self.right,
            PointerButton::Middle => self.middle,
        }
    }

    fn set_button(&mut self, button: PointerButton, down: bool)
        ensures
            *final(self) == old(self).with_button(button, down),
    {
        match button {
            PointerButton::Left => {
                self.left = down;
            },
            PointerButton::Right => {
                self.right = down;
            },
            PointerButton::Middle => {
                self.middle = down;
            },
        }
    }

    /// Takes one more raw event in.
    pub fn observe(&mut self, event: &PointerEvent)
        ensures
            *final(self) == old(self).after(*event),
    {
        match event.kind {
            PointerEventKind::Leave => {
                self.position = None;
            },
            _ => {
                self.position = Some(event.position);
            },
        }
        match event.kind {
            PointerEventKind::Press { button } => match parse_button_id(button) {
                Some(b) => {
                    self.set_button(b, true);
                },
                None => {},
            },
            PointerEventKind::Release { button } => match parse_button_id(button) {
                Some(b) => {
                    self.set_button(b, false);
                },
                None => {},
            },
            _ => {},
        }
    }
}

impl LogicalPosition {
    /// The position at the given whole pixels.
    pub fn from_pixels(x: i16, y: i16) -> (position: Self)
        ensures
            position.x == x * 256,
            position.y == y * 256,
    {
        LogicalPosition { x: x as i32 * 256, y: y as i32 * 256 }
    }
}

/// Resolves a button code.
pub fn parse_button_id(id: u32) -> (button: Option<PointerButton>)
    ensures
        button == button_of(id),
{
    if id == BUTTON_LEFT {
        Some(PointerButton::Left)
    } else if id == BUTTON_RIGHT {
        Some(PointerButton::Right)
    } else if id == BUTTON_MIDDLE {
        Some(PointerButton::Middle)
    } else {
        None
    }
}

/// Translates one raw event for the renderer.
pub fn translate(event: &PointerEvent) -> (out: Option<WindowEvent>)
    ensures
        out == translation(*event),
{
    let position = event.position;
    match event.kind {
        PointerEventKind::Enter => None,
        PointerEventKind::Leave => None,
        PointerEventKind::Motion => Some(WindowEvent::PointerMoved { position }),
        PointerEventKind::Press { button } => match parse_button_id(button) {
            Some(button) => Some(WindowEvent::PointerPressed { position, button }),
            None => None,
        },
        PointerEventKind::Release { button } => match parse_button_id(button) {
            Some(button) => Some(WindowEvent::PointerReleased { position, button }),
            None => None,
        },
        PointerEventKind::Axis => None,
    }
}

} // verus!
