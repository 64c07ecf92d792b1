use vstd::prelude::*;
use crate::geom::{PaneId, Position, same_pane};
use crate::mouse_action::PaneEdge;
use crate::mouse_handler::{MouseEffect, no_effect};

verus! {

/// After a click focused the pane under it: the tab changed when a floating pane moved with
/// the mouse (floating panes showing) or the active pane changed.
pub open spec fn focus_effect(
    floating_visible: bool,
    moved_with_mouse: bool,
    active_before: PaneId,
    active_after: PaneId,
) -> MouseEffect {
    if (floating_visible && moved_with_mouse) || active_before != active_after {
        MouseEffect { state_changed: true, ..no_effect() }
    } else {
        no_effect()
    }
}

/// What focusing the pane under a click changed.
pub fn focus_pane_effect(
    floating_visible: bool,
    moved_with_mouse: bool,
    active_before: PaneId,
    active_after: PaneId,
) -> (e: MouseEffect)
    ensures
        e == focus_effect(floating_visible, moved_with_mouse, active_before, active_after),
{
    if (floating_visible && moved_with_mouse) || !same_pane(Some(active_before), Some(active_after)) {
        MouseEffect::state_changed()
    } else {
        MouseEffect::default()
    }
}

/// How a click that focuses a pane and clicks through to it goes on.
#[derive(Clone, Copy, Debug, PartialEq, Eq, Structural)]
pub enum ClickThrough {
    /// A selection starts in the unselectable pane under the click.
    SelectInUnselectablePane,
    /// The active pane's terminal gets the click, unless the click is on its frame.
    ForwardToTerminal { send: bool },
    /// A selection starts in the active pane; the tab follows it with the mouse when the pane
    /// supports mouse selection.
    SelectInActivePane { follow_with_mouse: bool },
}

/// An unselectable pane under the click takes a selection; else a terminal that wants the
/// mouse gets the click (not on its frame); else the active pane takes a selection.
pub open spec fn click_through(
    unselectable_pane_at_position: bool,
    terminal_wants_mouse: bool,
    on_frame: bool,
    supports_mouse_selection: bool,
) -> ClickThrough {
    if unselectable_pane_at_position {
        ClickThrough::SelectInUnselectablePane
    } else if terminal_wants_mouse {
        ClickThrough::ForwardToTerminal { send: !on_frame }
    } else {
        ClickThrough::SelectInActivePane { follow_with_mouse: supports_mouse_selection }
    }
}

/// How a click that focuses a pane and clicks through to it goes on.
pub fn focus_pane_and_click_through(
    unselectable_pane_at_position: bool,
    terminal_wants_mouse: bool,
    on_frame: bool,
    supports_mouse_selection: bool,
) -> (c: ClickThrough)
    ensures
        c == click_through(unselectable_pane_at_position, terminal_wants_mouse, on_frame, supports_mouse_selection),
{
    if unselectable_pane_at_position {
        ClickThrough::SelectInUnselectablePane
    } else if terminal_wants_mouse {
        ClickThrough::ForwardToTerminal { send: !on_frame }
    } else {
        ClickThrough::SelectInActivePane { follow_with_mouse: supports_mouse_selection }
    }
}

/// Whether releasing the mouse after a resize focuses the pane under it: only when the resize
/// never changed the pane and another pane than the active one is under the mouse.
pub fn focus_after_resize(never_resized: bool, pane_at_position: Option<PaneId>, active_pane_id: PaneId) -> (r:
    bool)
    ensures
        r == (never_resized && pane_at_position is Some && pane_at_position != Some(active_pane_id)),
{
    never_resized && pane_at_position.is_some() && !same_pane(pane_at_position, Some(active_pane_id))
}

/// Whether releasing a floating pane that never moved focuses the pane under the mouse: only
/// when it is not the active one.
pub fn focus_after_moving_floating_pane(never_moved: bool, pane_at_position: PaneId, active_pane_id: PaneId) -> (r:
    bool)
    ensures
        r == (never_moved && pane_at_position != active_pane_id),
{
    never_moved && !same_pane(Some(pane_at_position), Some(active_pane_id))
}

/// A release position relative to a pane, held inside its content: the column at most the
/// content's width, the line between zero and the content's height.
pub open spec fn within_content(p: Position, content_columns: usize, content_rows: usize) -> Position {
    Position {
        line: if p.line < 0 { 0 } else if p.line > content_rows { content_rows as isize } else { p.line },
        column: if p.column > content_columns { content_columns } else { p.column },
    }
}

/// A release position relative to a pane, held inside its content.
pub fn end_selection_position(relative: Position, content_columns: usize, content_rows: usize) -> (p: Position)
    requires
        content_rows <= isize::MAX,
    ensures
        p == within_content(relative, content_columns, content_rows),
{
    let column = if relative.column > content_columns { content_columns } else { relative.column };
    let line = if relative.line < 0 {
        0
    } else if relative.line > content_rows as isize {
        content_rows as isize
    } else {
        relative.line
    };
    Position { line, column }
}

/// Whether ending a selection copies it and leaves the clipboard message: only when the pane
/// made no mouse report of the release, supports mouse selection, has selected text, and
/// copying on release is on.
pub fn end_selection_copies(
    release_reported: bool,
    supports_mouse_selection: bool,
    copy_on_release: bool,
    has_selected_text: bool,
) -> (r: bool)
    ensures
        r == (!release_reported && supports_mouse_selection && copy_on_release && has_selected_text),
{
    !release_reported && supports_mouse_selection && copy_on_release && has_selected_text
}

/// Whether a resize with the mouse keeps a snapshot of the Acme column's heights: only for a
/// tiled pane dragged by its top or bottom edge.
pub fn takes_acme_resize_snapshot(is_floating: bool, edge: PaneEdge) -> (r: bool)
    ensures
        r == (!is_floating && (edge == PaneEdge::Top || edge == PaneEdge::Bottom)),
{
    !is_floating && match edge {
        PaneEdge::Top | PaneEdge::Bottom => true,
        _ => false,
    }
}

} // verus!
