use vstd::prelude::*;
use crate::geom::Position;

verus! {

/// What happened to the mouse.
#[derive(Clone, Copy, Debug, PartialEq, Eq, Structural)]
pub enum MouseEventType {
    Press,
    Release,
    Motion,
}

/// A mouse event: its kind, the buttons and modifiers held, and where it happened.
#[derive(Clone, Copy, Debug, PartialEq, Eq, Structural)]
pub struct MouseEvent {
    pub event_type: MouseEventType,
    pub left: bool,
    pub right: bool,
    pub middle: bool,
    pub wheel_up: bool,
    pub wheel_down: bool,
    pub wheel_left: bool,
    pub wheel_right: bool,
    pub shift: bool,
    pub alt: bool,
    pub ctrl: bool,
    pub position: Position,
}

/// An event of the given kind with no button and no modifier.
pub open spec fn plain_event(event_type: MouseEventType, position: Position) -> MouseEvent {
    MouseEvent {
        event_type,
        left: false,
        right: false,
        middle: false,
        wheel_up: false,
        wheel_down: false,
        wheel_left: false,
        wheel_right: false,
        shift: false,
        alt: false,
        ctrl: false,
        position,
    }
}

impl MouseEvent {
    fn plain(event_type: MouseEventType, position: Position) -> (e: MouseEvent)
        ensures
            e == plain_event(event_type, position),
    {
        MouseEvent {
            event_type,
            left: false,
            right: false,
            middle: false,
            wheel_up: false,
            wheel_down: false,
            wheel_left: false,
            wheel_right: false,
            shift: false,
            alt: false,
            ctrl: false,
            position,
        }
    }

    pub fn new_buttonless_motion(position: Position) -> (e: MouseEvent)
        ensures
            e == plain_event(MouseEventType::Motion, position),
    {
        Self::plain(MouseEventType::Motion, position)
    }

    pub fn new_left_press_event(position: Position) -> (e: MouseEvent)
        ensures
            e == (MouseEvent { left: true, ..plain_event(MouseEventType::Press, position) }),
    {
        MouseEvent { left: true, ..Self::plain(MouseEventType::Press, position) }
    }

    pub fn new_left_motion_event(position: Position) -> (e: MouseEvent)
        ensures
            e == (MouseEvent { left: true, ..plain_event(MouseEventType::Motion, position) }),
    {
        MouseEvent { left: true, ..Self::plain(MouseEventType::Motion, position) }
    }

    pub fn new_left_release_event(position: Position) -> (e: MouseEvent)
        ensures
            e == (MouseEvent { left: true, ..plain_event(MouseEventType::Release, position) }),
    {
        MouseEvent { left: true, ..Self::plain(MouseEventType::Release, position) }
    }

    pub fn new_left_press_with_ctrl_event(position: Position) -> (e: MouseEvent)
        ensures
            e == (MouseEvent {
                left: true,
                ctrl: true,
                ..plain_event(MouseEventType::Press, position)
            }),
    {
        MouseEvent { left: true, ctrl: true, ..Self::plain(MouseEventType::Press, position) }
    }

    pub fn new_left_press_with_alt_event(position: Position) -> (e: MouseEvent)
        ensures
            e == (MouseEvent {
                left: true,
                alt: true,
                ..plain_event(MouseEventType::Press, position)
            }),
    {
        MouseEvent { left: true, alt: true, ..Self::plain(MouseEventType::Press, position) }
    }

    pub fn new_right_press_event(position: Position) -> (e: MouseEvent)
        ensures
            e == (MouseEvent { right: true, ..plain_event(MouseEventType::Press, position) }),
    {
        MouseEvent { right: true, ..Self::plain(MouseEventType::Press, position) }
    }

    pub fn new_right_press_with_alt_event(position: Position) -> (e: MouseEvent)
        ensures
            e == (MouseEvent {
                right: true,
                alt: true,
                ..plain_event(MouseEventType::Press, position)
            }),
    {
        MouseEvent { right: true, alt: true, ..Self::plain(MouseEventType::Press, position) }
    }

    pub fn new_right_release_event(position: Position) -> (e: MouseEvent)
        ensures
            e == (MouseEvent { right: true, ..plain_event(MouseEventType::Release, position) }),
    {
        MouseEvent { right: true, ..Self::plain(MouseEventType::Release, position) }
    }

    pub fn new_right_motion_event(position: Position) -> (e: MouseEvent)
        ensures
            e == (MouseEvent { right: true, ..plain_event(MouseEventType::Motion, position) }),
    {
        MouseEvent { right: true, ..Self::plain(MouseEventType::Motion, position) }
    }

    pub fn new_middle_press_event(position: Position) -> (e: MouseEvent)
        ensures
            e == (MouseEvent { middle: true, ..plain_event(MouseEventType::Press, position) }),
    {
        MouseEvent { middle: true, ..Self::plain(MouseEventType::Press, position) }
    }

    pub fn new_ctrl_scroll_up_event(position: Position) -> (e: MouseEvent)
        ensures
            e == (MouseEvent {
                wheel_up: true,
                ctrl: true,
                ..plain_event(MouseEventType::Press, position)
            }),
    {
        MouseEvent { wheel_up: true, ctrl: true, ..Self::plain(MouseEventType::Press, position) }
    }

    pub fn new_ctrl_scroll_down_event(position: Position) -> (e: MouseEvent)
        ensures
            e == (MouseEvent {
                wheel_down: true,
                ctrl: true,
                ..plain_event(MouseEventType::Press, position)
            }),
    {
        MouseEvent {
            wheel_down: true,
            ctrl: true,
            ..Self::plain(MouseEventType::Press, position)
        }
    }
}

} // verus!
