use vstd::prelude::*;
use crate::geom::{PaneId, Position, same_pane};
use crate::mouse_handler::{MouseEffect, no_effect};

verus! {

/// What a tab remembers of one client's mouse hover: the pane it highlights, the plugin pane
/// that is told about the mouse, the pane the mouse was last over, and whether the mouse help
/// text is up (absent when it was never shown or has been taken down).
#[derive(Clone, Copy, Debug, PartialEq, Eq, Structural)]
pub struct HoverState {
    pub hover_pane_id: Option<PaneId>,
    pub plugin_hover_pane_id: Option<PaneId>,
    pub last_pane_id: Option<PaneId>,
    pub help_text_visible: Option<bool>,
}

/// The tab's mouse settings that hovering depends on.
#[derive(Clone, Copy, Debug, PartialEq, Eq, Structural)]
pub struct HoverSettings {
    pub mouse_hover_effects: bool,
    pub advanced_mouse_actions: bool,
    pub mouse_hover_tips: bool,
}

/// The panes to tell that the hover changed: one whose hover position is cleared, and a plugin
/// pane the mouse left, which is sent motion far off its right edge.
#[derive(Clone, Copy, Debug, PartialEq, Eq, Structural)]
pub struct HoverNotices {
    pub clear_hover_position: Option<PaneId>,
    pub plugin_left: Option<PaneId>,
    /// Buttonless motion to forward to the plugin pane under the mouse, at the mouse.
    pub plugin_motion: Option<PluginMotion>,
}

/// Motion to forward to a plugin pane, at a display position.
#[derive(Clone, Copy, Debug, PartialEq, Eq, Structural)]
pub struct PluginMotion {
    pub pane_id: PaneId,
    pub position: Position,
}

/// The column a plugin pane the mouse left is sent motion at: far off its right edge.
pub const LEFT_PLUGIN_COLUMN: usize = 0xffff;

/// Forgetting a client's hover: the highlighted pane and the plugin pane are cleared, and each
/// is told.
pub fn clear_hover_for_client(state: &mut HoverState) -> (r: (bool, HoverNotices))
    ensures
        *final(state) == (HoverState { hover_pane_id: None, plugin_hover_pane_id: None, ..*old(state) }),
        r.0 == (old(state).hover_pane_id is Some || old(state).plugin_hover_pane_id is Some),
        r.1 == (HoverNotices {
            clear_hover_position: old(state).hover_pane_id,
            plugin_left: old(state).plugin_hover_pane_id,
            plugin_motion: None,
        }),
{
    let notices = HoverNotices {
        clear_hover_position: state.hover_pane_id,
        plugin_left: state.plugin_hover_pane_id,
        plugin_motion: None,
    };
    let cleared = state.hover_pane_id.is_some() || state.plugin_hover_pane_id.is_some();
    state.hover_pane_id = None;
    state.plugin_hover_pane_id = None;
    (cleared, notices)
}

/// The plugin pane under the mouse, if the pane under it is a plugin.
pub open spec fn plugin_under(pane_id: Option<PaneId>) -> Option<PaneId> {
    match pane_id {
        Some(PaneId::Plugin(n)) => Some(PaneId::Plugin(n)),
        _ => None,
    }
}

/// The hover after the mouse moved over `pane_id` (`None`: over no pane) at `position`, where
/// `pane_selectable` says whether that pane exists and can be selected:
/// - with hover effects on, the plugin pane under the mouse is told of the motion, and a plugin
///   pane the mouse left is told it left;
/// - over a pane that exists, it is highlighted when advanced mouse actions and hover effects
///   are on and it is selectable, else the highlight goes when advanced mouse actions are on or
///   hover effects off; it becomes the last pane, and the tab renders;
/// - over no pane, the last pane and the highlight are forgotten, and the tab renders if there
///   was a highlight;
/// - a pane that loses the highlight has its hover position cleared;
/// - help text that is up comes down, and the tab renders.
/// The effect always leaves the clipboard message.
pub open spec fn hovered(
    state: HoverState,
    settings: HoverSettings,
    pane_id: Option<PaneId>,
    position: Option<Position>,
    pane_selectable: Option<bool>,
) -> (HoverState, HoverNotices, MouseEffect) {
    let current_plugin = plugin_under(pane_id);
    let plugin_changes = settings.mouse_hover_effects && current_plugin != state.plugin_hover_pane_id;
    let plugin_hover = if plugin_changes { current_plugin } else { state.plugin_hover_pane_id };
    let (hover, last, render_pane) = match pane_id {
        Some(pid) => match pane_selectable {
            Some(selectable) => (
                if settings.advanced_mouse_actions && settings.mouse_hover_effects && selectable {
                    Some(pid)
                } else if settings.advanced_mouse_actions || !settings.mouse_hover_effects {
                    None
                } else {
                    state.hover_pane_id
                },
                Some(pid),
                true,
            ),
            None => (state.hover_pane_id, state.last_pane_id, false),
        },
        None => (None, None, state.hover_pane_id is Some),
    };
    let render = render_pane || state.help_text_visible is Some;
    (
        HoverState {
            hover_pane_id: hover,
            plugin_hover_pane_id: plugin_hover,
            last_pane_id: last,
            help_text_visible: None,
        },
        HoverNotices {
            clear_hover_position: match state.hover_pane_id {
                Some(prev) => if Some(prev) != pane_id { Some(prev) } else { None },
                None => None,
            },
            plugin_left: if plugin_changes { state.plugin_hover_pane_id } else { None },
            plugin_motion: match (current_plugin, position) {
                (Some(pid), Some(p)) => if settings.mouse_hover_effects && pane_selectable is Some {
                    Some(PluginMotion { pane_id: pid, position: p })
                } else {
                    None
                },
                _ => None,
            },
        },
        MouseEffect { state_changed: render, leave_clipboard_message: true, ..no_effect() },
    )
}

/// Updates a client's hover after the mouse moved over `pane_id` at `position`.
pub fn update_hover(
    state: &mut HoverState,
    settings: HoverSettings,
    pane_id: Option<PaneId>,
    position: Option<Position>,
    pane_selectable: Option<bool>,
) -> (r: (HoverNotices, MouseEffect))
    ensures
        ({
            let (s, n, e) = hovered(*old(state), settings, pane_id, position, pane_selectable);
            *final(state) == s && r.0 == n && r.1 == e
        }),
{
    let mut should_render = false;
    let previous_hover_pane_id = state.hover_pane_id;
    let mut notices = HoverNotices { clear_hover_position: None, plugin_left: None, plugin_motion: None };
    if settings.mouse_hover_effects {
        let previous_plugin_hover_pane_id = state.plugin_hover_pane_id;
        let current_plugin_hover_pane_id = match pane_id {
            Some(PaneId::Plugin(n)) => Some(PaneId::Plugin(n)),
            _ => None,
        };
        if let (Some(pid), Some(p)) = (current_plugin_hover_pane_id, position) {
            if pane_selectable.is_some() {
                notices.plugin_motion = Some(PluginMotion { pane_id: pid, position: p });
            }
        }
        if !same_pane(previous_plugin_hover_pane_id, current_plugin_hover_pane_id) {
            notices.plugin_left = previous_plugin_hover_pane_id;
            state.plugin_hover_pane_id = current_plugin_hover_pane_id;
        }
    }
    match pane_id {
        Some(pid) => {
            if let Some(selectable) = pane_selectable {
                if settings.advanced_mouse_actions && settings.mouse_hover_effects && selectable {
                    state.hover_pane_id = Some(pid);
                } else if settings.advanced_mouse_actions || !settings.mouse_hover_effects {
                    state.hover_pane_id = None;
                }
                state.last_pane_id = Some(pid);
                should_render = true;
            }
        },
        None => {
            state.last_pane_id = None;
            if state.hover_pane_id.is_some() {
                should_render = true;
            }
            state.hover_pane_id = None;
        },
    }
    if let Some(prev_pane_id) = previous_hover_pane_id {
        if !same_pane(Some(prev_pane_id), pane_id) {
            notices.clear_hover_position = Some(prev_pane_id);
        }
    }
    if state.help_text_visible.is_some() {
        should_render = true;
    }
    state.help_text_visible = None;
    let mut effect = if should_render {
        MouseEffect::state_changed()
    } else {
        MouseEffect::default()
    };
    effect.leave_clipboard_message = true;
    (notices, effect)
}

/// Whether hovering over a pane focuses it: only a selectable pane that is not the active one,
/// not a tiled pane under visible floating panes, not a one-line member of a stack, and not a
/// hidden member of a stack list. Otherwise only the hover updates.
pub open spec fn hover_focuses(
    pane_id: PaneId,
    selectable: bool,
    floating_visible: bool,
    is_floating: bool,
    is_stacked_one_liner: bool,
    is_hidden_stack_list_member: bool,
    active_pane_id: Option<PaneId>,
) -> bool {
    selectable && !(floating_visible && !is_floating) && !is_stacked_one_liner
        && !is_hidden_stack_list_member && active_pane_id != Some(pane_id)
}

/// Whether hovering over a pane focuses it (else only the hover updates).
pub fn focus_on_hover(
    pane_id: PaneId,
    selectable: bool,
    floating_visible: bool,
    is_floating: bool,
    is_stacked_one_liner: bool,
    is_hidden_stack_list_member: bool,
    active_pane_id: Option<PaneId>,
) -> (r: bool)
    ensures
        r == hover_focuses(
            pane_id,
            selectable,
            floating_visible,
            is_floating,
            is_stacked_one_liner,
            is_hidden_stack_list_member,
            active_pane_id,
        ),
{
    if !selectable {
        return false;
    }
    if floating_visible && !is_floating {
        return false;
    }
    if is_stacked_one_liner {
        return false;
    }
    if is_hidden_stack_list_member {
        return false;
    }
    if same_pane(active_pane_id, Some(pane_id)) {
        return false;
    }
    true
}

/// After motion over the active terminal pane, with hover effects on, that pane becomes the
/// last one; on entering it (it was not the last), with hover tips on, the help text goes up
/// and is scheduled to come down again. Returns whether the tab must render (the help text
/// was not up) and whether to schedule taking it down.
pub fn terminal_motion_help(state: &mut HoverState, settings: HoverSettings, pane_id: PaneId, is_motion: bool)
    -> (r: (bool, bool))
    ensures
        ({
            let applies = is_motion && settings.mouse_hover_effects;
            let entered = old(state).last_pane_id != Some(pane_id);
            let shows = applies && entered && settings.mouse_hover_tips;
            &&& final(state).hover_pane_id == old(state).hover_pane_id
            &&& final(state).plugin_hover_pane_id == old(state).plugin_hover_pane_id
            &&& final(state).last_pane_id == (if applies { Some(pane_id) } else { old(state).last_pane_id })
            &&& final(state).help_text_visible == (if shows { Some(true) } else { old(state).help_text_visible })
            &&& r.0 == (shows && old(state).help_text_visible != Some(true))
            &&& r.1 == shows
        }),
{
    if !(is_motion && settings.mouse_hover_effects) {
        return (false, false);
    }
    let entered_pane = !same_pane(state.last_pane_id, Some(pane_id));
    state.last_pane_id = Some(pane_id);
    if entered_pane && settings.mouse_hover_tips {
        let was_visible = match state.help_text_visible {
            Some(v) => v,
            None => false,
        };
        state.help_text_visible = Some(true);
        (!was_visible, true)
    } else {
        (false, false)
    }
}

} // verus!
