use vstd::prelude::*;

verus! {

/// A direction on screen.
#[derive(Clone, Copy, Debug, PartialEq, Eq, Structural)]
pub enum Direction {
    Left,
    Right,
    Up,
    Down,
}

/// Whether a resize grows or shrinks a pane.
#[derive(Clone, Copy, Debug, PartialEq, Eq, Structural)]
pub enum Resize {
    Increase,
    Decrease,
}

/// A resize request: grow or shrink, optionally toward one direction.
#[derive(Clone, Copy, Debug, PartialEq, Eq, Structural)]
pub struct ResizeStrategy {
    pub resize: Resize,
    pub direction: Option<Direction>,
    pub invert_on_boundaries: bool,
}

/// The input mode of a client.
#[derive(Clone, Copy, Debug, PartialEq, Eq, Structural)]
pub enum InputMode {
    Normal,
    Locked,
    Resize,
    Pane,
    Tab,
    Scroll,
    EnterSearch,
    Search,
    RenameTab,
    RenamePane,
    Session,
    Move,
    Prompt,
    Tmux,
}

/// The mode a client returns to when it leaves search mode: its default mode when the active
/// pane's view is at the bottom (or there is no active pane), scroll mode when the pane is
/// scrolled back, else the base mode it was set up with (its default when none). The active
/// pane is given as whether it is scrolled and whether its view is at the bottom.
pub open spec fn base_mode_after_search(
    default_mode: InputMode,
    configured_base_mode: Option<InputMode>,
    active_pane: Option<(bool, bool)>,
) -> InputMode {
    let (is_scrolled, is_at_bottom) = match active_pane {
        Some(p) => p,
        None => (false, true),
    };
    if is_at_bottom {
        default_mode
    } else if is_scrolled {
        InputMode::Scroll
    } else {
        match configured_base_mode {
            Some(m) => m,
            None => default_mode,
        }
    }
}

/// The mode a client returns to when it leaves search mode.
pub fn base_mode_for_client(
    default_mode: InputMode,
    configured_base_mode: Option<InputMode>,
    active_pane: Option<(bool, bool)>,
) -> (mode: InputMode)
    ensures
        mode == base_mode_after_search(default_mode, configured_base_mode, active_pane),
{
    let configured = match configured_base_mode {
        Some(m) => m,
        None => default_mode,
    };
    let (is_scrolled, is_at_bottom) = match active_pane {
        Some(p) => p,
        None => (false, true),
    };
    if is_at_bottom {
        default_mode
    } else if is_scrolled {
        InputMode::Scroll
    } else {
        configured
    }
}


} // verus!
