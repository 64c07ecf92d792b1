use vstd::prelude::*;
use crate::geom::{PaneId, Position, Size, min_usize};
use crate::text::{all_white_space, char_is_whitespace};
use vstd::std_specs::iter::IteratorSpec;

verus! {

pub const ACME_CONTEXT_MENU_LABEL_WIDTH: usize = 10;
pub const ACME_CONTEXT_MENU_CONTENT_WIDTH: usize = ACME_CONTEXT_MENU_LABEL_WIDTH + 2;
pub const ACME_CONTEXT_MENU_WIDTH: usize = ACME_CONTEXT_MENU_CONTENT_WIDTH + 2;
pub const ACME_CONTEXT_MENU_ITEM_COUNT: usize = 5;
pub const ACME_CONTEXT_MENU_HEIGHT: usize = ACME_CONTEXT_MENU_ITEM_COUNT + 2;

/// An entry of the Acme context menu.
#[derive(Clone, Copy, Debug, PartialEq, Eq, Structural)]
pub enum AcmeContextMenuAction {
    Put,
    Send,
    Look,
    GoToDefinition,
    Cancel,
}

/// The menu entries, top to bottom.
pub open spec fn menu_item(index: int) -> AcmeContextMenuAction {
    if index == 0 {
        AcmeContextMenuAction::Put
    } else if index == 1 {
        AcmeContextMenuAction::Send
    } else if index == 2 {
        AcmeContextMenuAction::Look
    } else if index == 3 {
        AcmeContextMenuAction::GoToDefinition
    } else {
        AcmeContextMenuAction::Cancel
    }
}

/// The label shown for an entry.
pub open spec fn menu_label(action: AcmeContextMenuAction) -> Seq<char> {
    match action {
        AcmeContextMenuAction::Put => "put"@,
        AcmeContextMenuAction::Send => "send"@,
        AcmeContextMenuAction::Look => "look"@,
        AcmeContextMenuAction::GoToDefinition => "definition"@,
        AcmeContextMenuAction::Cancel => "cancel"@,
    }
}

pub fn menu_item_at(index: usize) -> (a: AcmeContextMenuAction)
    requires
        index < ACME_CONTEXT_MENU_ITEM_COUNT,
    ensures
        a == menu_item(index as int),
{
    if index == 0 {
        AcmeContextMenuAction::Put
    } else if index == 1 {
        AcmeContextMenuAction::Send
    } else if index == 2 {
        AcmeContextMenuAction::Look
    } else if index == 3 {
        AcmeContextMenuAction::GoToDefinition
    } else {
        AcmeContextMenuAction::Cancel
    }
}

impl AcmeContextMenuAction {
    /// Entries that act on the place where the mouse is released, and so may be dragged.
    pub open spec fn spec_is_drag_targeted(self) -> bool {
        self is Put || self is Send || self is Look
    }

    pub fn is_drag_targeted(self) -> (r: bool)
        ensures
            r == self.spec_is_drag_targeted(),
    {
        match self {
            AcmeContextMenuAction::Put | AcmeContextMenuAction::Send
            | AcmeContextMenuAction::Look => true,
            _ => false,
        }
    }
}

/// The line of a position, with lines above the display taken as line 0.
pub open spec fn line_or_zero(p: Position) -> usize {
    if p.line >= 0 {
        p.line as usize
    } else {
        0
    }
}

pub fn line_or_zero_exec(p: Position) -> (l: usize)
    ensures
        l == line_or_zero(p),
{
    if p.line >= 0 {
        p.line as usize
    } else {
        0
    }
}

/// The left edge of a menu opened at column `anchor_x`: right of the anchor when the menu
/// fits there, else left of it, and at 0 on a display too narrow for it.
pub open spec fn menu_x_spec(anchor_x: usize, screen_cols: usize) -> usize {
    if screen_cols <= ACME_CONTEXT_MENU_WIDTH {
        0
    } else if anchor_x.saturating_add(1).saturating_add(ACME_CONTEXT_MENU_WIDTH as usize)
        <= screen_cols {
        anchor_x.saturating_add(1)
    } else {
        anchor_x.saturating_sub(ACME_CONTEXT_MENU_WIDTH as usize)
    }
}

pub fn acme_context_menu_x(anchor_x: usize, screen_cols: usize) -> (x: usize)
    ensures
        x == menu_x_spec(anchor_x, screen_cols),
{
    if screen_cols <= ACME_CONTEXT_MENU_WIDTH {
        return 0;
    }
    let right_of_anchor = anchor_x.saturating_add(1);
    if right_of_anchor.saturating_add(ACME_CONTEXT_MENU_WIDTH) <= screen_cols {
        right_of_anchor
    } else {
        anchor_x.saturating_sub(ACME_CONTEXT_MENU_WIDTH)
    }
}

/// An open Acme context menu: where it was opened, where it stands, and what is selected.
#[derive(Clone, Copy, Debug, PartialEq, Eq)]
pub struct AcmeContextMenuState {
    pub pane_id: PaneId,
    pub anchor_position: Position,
    pub x: usize,
    pub y: usize,
    pub selected_action: Option<AcmeContextMenuAction>,
    pub drag_offset: Option<(usize, usize)>,
}

/// The menu as opened at `anchor` on a display of the given size.
pub open spec fn new_menu(pane_id: PaneId, anchor: Position, size: Size) -> AcmeContextMenuState {
    let anchor_y = line_or_zero(anchor);
    let max_y = size.rows.saturating_sub(ACME_CONTEXT_MENU_HEIGHT as usize);
    AcmeContextMenuState {
        pane_id,
        anchor_position: anchor,
        x: menu_x_spec(anchor.column, size.cols),
        y: if anchor_y <= max_y { anchor_y } else { max_y },
        selected_action: None,
        drag_offset: None,
    }
}

impl AcmeContextMenuState {
    /// The position lies in the menu box, border included.
    pub open spec fn spec_contains_position(self, p: Position) -> bool {
        &&& p.line >= 0
        &&& p.column >= self.x
        &&& p.column < self.x.saturating_add(ACME_CONTEXT_MENU_WIDTH as usize)
        &&& p.line >= self.y
        &&& p.line < self.y.saturating_add(ACME_CONTEXT_MENU_HEIGHT as usize)
    }

    /// The entry under a position, inside the border.
    pub open spec fn spec_action_at(self, p: Position) -> Option<AcmeContextMenuAction> {
        if p.line < 0 {
            None
        } else if p.column <= self.x || p.column >= self.x.saturating_add(
            (ACME_CONTEXT_MENU_WIDTH - 1) as usize,
        ) {
            None
        } else if p.line <= self.y || p.line >= self.y.saturating_add(
            (ACME_CONTEXT_MENU_HEIGHT - 1) as usize,
        ) {
            None
        } else if p.line - self.y - 1 < ACME_CONTEXT_MENU_ITEM_COUNT {
            Some(menu_item(p.line - self.y - 1))
        } else {
            None
        }
    }

    /// The menu after the mouse moved to `p`: inside the box it selects the entry under the
    /// mouse; outside, a dragged entry carries the menu along; otherwise nothing stays selected.
    pub open spec fn spec_updated(self, p: Position, size: Size) -> AcmeContextMenuState {
        if self.spec_contains_position(p) {
            if let Some(action) = self.spec_action_at(p) {
                AcmeContextMenuState {
                    selected_action: Some(action),
                    drag_offset: if action.spec_is_drag_targeted() {
                        Some(
                            (
                                p.column.saturating_sub(self.x),
                                line_or_zero(p).saturating_sub(self.y),
                            ),
                        )
                    } else {
                        None
                    },
                    ..self
                }
            } else {
                self
            }
        } else if let Some((offset_x, offset_y)) = self.drag_offset {
            let max_x = size.cols.saturating_sub(ACME_CONTEXT_MENU_WIDTH as usize);
            let max_y = size.rows.saturating_sub(ACME_CONTEXT_MENU_HEIGHT as usize);
            let want_x = p.column.saturating_sub(offset_x);
            let want_y = line_or_zero(p).saturating_sub(offset_y);
            let moved = AcmeContextMenuState {
                x: if want_x <= max_x { want_x } else { max_x },
                y: if want_y <= max_y { want_y } else { max_y },
                ..self
            };
            let under = moved.spec_action_at(p);
            AcmeContextMenuState {
                selected_action: if under is Some && under->0.spec_is_drag_targeted() {
                    under
                } else if self.selected_action is Some
                    && self.selected_action->0.spec_is_drag_targeted() {
                    self.selected_action
                } else {
                    None
                },
                ..moved
            }
        } else {
            AcmeContextMenuState { selected_action: None, ..self }
        }
    }

    /// The entry chosen by releasing the mouse at `p`.
    pub open spec fn spec_action_for_release(self, p: Position) -> Option<AcmeContextMenuAction> {
        if self.selected_action is Some && self.selected_action->0.spec_is_drag_targeted() {
            self.selected_action
        } else {
            self.spec_action_at(p)
        }
    }

    pub fn new(pane_id: PaneId, anchor_position: Position, display_size: Size) -> (m: Self)
        ensures
            m == new_menu(pane_id, anchor_position, display_size),
    {
        let anchor_x = anchor_position.column();
        let anchor_y = line_or_zero_exec(anchor_position);
        let x = acme_context_menu_x(anchor_x, display_size.cols);
        let y = min_usize(anchor_y, display_size.rows.saturating_sub(ACME_CONTEXT_MENU_HEIGHT));
        AcmeContextMenuState {
            pane_id,
            anchor_position,
            x,
            y,
            selected_action: None,
            drag_offset: None,
        }
    }

    pub fn contains_position(&self, position: Position) -> (r: bool)
        ensures
            r == self.spec_contains_position(position),
    {
        if position.line() < 0 {
            return false;
        }
        let line = position.line() as usize;
        let column = position.column();
        column >= self.x && column < self.x.saturating_add(ACME_CONTEXT_MENU_WIDTH) && line
            >= self.y && line < self.y.saturating_add(ACME_CONTEXT_MENU_HEIGHT)
    }

    pub fn action_at(&self, position: Position) -> (r: Option<AcmeContextMenuAction>)
        ensures
            r == self.spec_action_at(position),
    {
        if position.line() < 0 {
            return None;
        }
        let line = position.line() as usize;
        let column = position.column();
        if column <= self.x || column >= self.x.saturating_add(ACME_CONTEXT_MENU_WIDTH - 1) {
            return None;
        }
        if line <= self.y || line >= self.y.saturating_add(ACME_CONTEXT_MENU_HEIGHT - 1) {
            return None;
        }
        let index = line - self.y - 1;
        if index < ACME_CONTEXT_MENU_ITEM_COUNT {
            Some(menu_item_at(index))
        } else {
            None
        }
    }

    pub fn action_for_release(&self, position: Position) -> (r: Option<AcmeContextMenuAction>)
        ensures
            r == self.spec_action_for_release(position),
    {
        match self.selected_action {
            Some(action) => {
                if action.is_drag_targeted() {
                    return Some(action);
                }
            },
            None => {},
        }
        self.action_at(position)
    }

    /// Moves the menu state to follow the mouse; tells whether anything changed.
    pub fn update_for_mouse_position(&mut self, position: Position, display_size: Size) -> (changed: bool)
        ensures
            *final(self) == old(self).spec_updated(position, display_size),
            changed == (*final(self) != *old(self)),
    {
        let previous_x = self.x;
        let previous_y = self.y;
        let previous_selected = self.selected_action;
        let previous_offset = self.drag_offset;
        if self.contains_position(position) {
            if let Some(action) = self.action_at(position) {
                self.selected_action = Some(action);
                if action.is_drag_targeted() {
                    self.drag_offset = Some(
                        (
                            position.column().saturating_sub(self.x),
                            line_or_zero_exec(position).saturating_sub(self.y),
                        ),
                    );
                } else {
                    self.drag_offset = None;
                }
            }
        } else if let Some((offset_x, offset_y)) = self.drag_offset {
            let old_selected = self.selected_action;
            self.x = min_usize(
                position.column().saturating_sub(offset_x),
                display_size.cols.saturating_sub(ACME_CONTEXT_MENU_WIDTH),
            );
            self.y = min_usize(
                line_or_zero_exec(position).saturating_sub(offset_y),
                display_size.rows.saturating_sub(ACME_CONTEXT_MENU_HEIGHT),
            );
            let under = self.action_at(position);
            let under_targeted = match under {
                Some(a) => a.is_drag_targeted(),
                None => false,
            };
            let old_targeted = match old_selected {
                Some(a) => a.is_drag_targeted(),
                None => false,
            };
            self.selected_action = if under_targeted {
                under
            } else if old_targeted {
                old_selected
            } else {
                None
            };
        } else {
            self.selected_action = None;
        }
        let same_selected = match (previous_selected, self.selected_action) {
            (Some(a), Some(b)) => a == b,
            (None, None) => true,
            _ => false,
        };
        let same_offset = match (previous_offset, self.drag_offset) {
            (Some(a), Some(b)) => a.0 == b.0 && a.1 == b.1,
            (None, None) => true,
            _ => false,
        };
        !(previous_x == self.x && previous_y == self.y && same_selected && same_offset)
    }
}

/// Text sent to a terminal ends a line: a carriage return is added unless the text already
/// ends with a line feed or a carriage return.
pub open spec fn with_trailing_enter(bytes: Seq<u8>) -> Seq<u8> {
    if bytes.len() > 0 && (bytes.last() == 0x0a || bytes.last() == 0x0d) {
        bytes
    } else {
        bytes.push(0x0d)
    }
}

/// The bytes of text to send to a terminal, ending a line.
pub fn text_with_trailing_enter(text: String) -> (bytes: Vec<u8>)
    ensures
        bytes@ == with_trailing_enter(vstd::utf8::encode_utf8(text@)),
{
    let source = text.as_str().as_bytes();
    let mut bytes: Vec<u8> = Vec::new();
    let mut i: usize = 0;
    while i < source.len()
        invariant
            i <= source@.len(),
            bytes@ == source@.take(i as int),
        decreases source@.len() - i,
    {
        bytes.push(source[i]);
        i += 1;
        assert(bytes@ =~= source@.take(i as int));
    }
    assert(source@.take(i as int) =~= source@);
    let n = bytes.len();
    let ends_line = n > 0 && (bytes[n - 1] == 0x0a || bytes[n - 1] == 0x0d);
    if !ends_line {
        bytes.push(0x0d);
    }
    bytes
}

/// Text worth acting on: `None` when it is whitespace only (or empty), else the text itself.
pub fn non_blank_text(text: String) -> (r: Option<String>)
    ensures
        r is None <==> all_white_space(text@),
        r matches Some(t) ==> t@ == text@,
{
    broadcast use vstd::string::group_string_axioms;

    let mut blank = true;
    {
        let s = text.as_str();
        let ghost all = s@;
        let mut chars = s.chars();
        let ghost mut k: int = 0;
        assert(all.skip(0) =~= all);
        loop
            invariant_except_break
                chars.remaining() == all.skip(k),
                0 <= k <= all.len(),
                blank,
                all_white_space(all.take(k)),
            invariant
                all == text@,
            ensures
                blank <==> all_white_space(all),
            decreases all.len() - k,
        {
            match chars.next() {
                Some(c) => {
                    assert(c == all[k]);
                    if !char_is_whitespace(c) {
                        blank = false;
                        break;
                    }
                    proof {
                        assert(all.take(k + 1) =~= all.take(k).push(c));
                        assert(all.skip(k).drop_first() =~= all.skip(k + 1));
                        k = k + 1;
                    }
                },
                None => {
                    assert(k == all.len());
                    assert(all.take(k) =~= all);
                    break;
                },
            }
        }
    }
    if blank {
        None
    } else {
        Some(text)
    }
}

/// The text the menu acts on: the selected text when it is not blank, else the word under the
/// menu's anchor when that is not blank.
pub open spec fn menu_text_choice(selected: Option<Seq<char>>, word: Option<Seq<char>>) -> Option<Seq<char>> {
    match selected {
        Some(s) if !all_white_space(s) => Some(s),
        _ => match word {
            Some(w) if !all_white_space(w) => Some(w),
            _ => None,
        },
    }
}

/// The view of an optional string.
pub open spec fn opt_text(t: Option<String>) -> Option<Seq<char>> {
    match t {
        Some(s) => Some(s@),
        None => None,
    }
}

/// The text the menu acts on, given the pane's selected text and the word under the menu's
/// anchor.
pub fn selected_or_word_for_menu(selected: Option<String>, word: Option<String>) -> (text: Option<
    String,
>)
    ensures
        opt_text(text) == menu_text_choice(opt_text(selected), opt_text(word)),
{
    let chosen = match selected {
        Some(s) => non_blank_text(s),
        None => None,
    };
    match chosen {
        Some(s) => Some(s),
        None => match word {
            Some(w) => non_blank_text(w),
            None => None,
        },
    }
}

/// The bytes of a string, in UTF-8.
fn string_bytes(text: &String) -> (bytes: Vec<u8>)
    ensures
        bytes@ == vstd::utf8::encode_utf8(text@),
{
    let source = text.as_str().as_bytes();
    let mut bytes: Vec<u8> = Vec::new();
    let mut i: usize = 0;
    while i < source.len()
        invariant
            i <= source@.len(),
            bytes@ == source@.take(i as int),
        decreases source@.len() - i,
    {
        bytes.push(source[i]);
        i += 1;
        assert(bytes@ =~= source@.take(i as int));
    }
    assert(source@.take(i as int) =~= source@);
    bytes
}

/// The terminal pane under a position, given the pane there and whether the position is on
/// that pane's frame: none on a frame, over a plugin pane, or over no pane.
pub fn terminal_pane_id_at_position(pane_at_position: Option<PaneId>, on_frame: bool) -> (r:
    Option<PaneId>)
    ensures
        r == match pane_at_position {
            Some(PaneId::Terminal(n)) => if on_frame { None } else { Some(PaneId::Terminal(n)) },
            _ => None,
        },
{
    match pane_at_position {
        Some(PaneId::Terminal(n)) => if on_frame { None } else { Some(PaneId::Terminal(n)) },
        _ => None,
    }
}


/// What a chosen entry of the context menu does.
#[derive(Debug)]
pub enum AcmeContextMenuEffect {
    /// Paste the bytes into a terminal pane.
    Paste { pane_id: PaneId, bytes: Vec<u8> },
    /// Type the bytes into a terminal pane.
    Send { pane_id: PaneId, bytes: Vec<u8> },
    /// Focus a pane, search it for the text from a position, and enter search mode.
    Look { pane_id: PaneId, text: String, anchor: Position },
    /// Look up the definition of the text, from the pane the menu was opened on.
    GoToDefinition { pane_id: PaneId, text: String },
    /// Nothing happens.
    Nothing,
}

/// The effect of a chosen entry, given the terminal pane under the release (if any) and the
/// text the menu acts on (if any): put pastes the text into that pane; send types it there,
/// ending the line; look focuses that pane and searches it for the text, from the menu's anchor
/// when it is the menu's own pane, else from the release; definition looks the text up from the
/// menu's pane, wherever the release was; cancel does nothing, nor does any entry without text
/// or (but for definition) without a terminal pane under the release.
pub fn acme_context_menu_effect(
    menu: AcmeContextMenuState,
    action: AcmeContextMenuAction,
    release_position: Position,
    target_pane_id: Option<PaneId>,
    text: Option<String>,
) -> (effect: AcmeContextMenuEffect)
    ensures
        match action {
            AcmeContextMenuAction::Put => match (target_pane_id, text) {
                (Some(p), Some(t)) => effect matches AcmeContextMenuEffect::Paste { pane_id, bytes }
                    && pane_id == p && bytes@ == vstd::utf8::encode_utf8(t@),
                _ => effect is Nothing,
            },
            AcmeContextMenuAction::Send => match (target_pane_id, text) {
                (Some(p), Some(t)) => effect matches AcmeContextMenuEffect::Send { pane_id, bytes }
                    && pane_id == p && bytes@ == with_trailing_enter(vstd::utf8::encode_utf8(t@)),
                _ => effect is Nothing,
            },
            AcmeContextMenuAction::Look => match (target_pane_id, text) {
                (Some(p), Some(t)) => effect matches AcmeContextMenuEffect::Look { pane_id, text: found, anchor }
                    && pane_id == p && found@ == t@
                    && anchor == (if p == menu.pane_id { menu.anchor_position } else { release_position }),
                _ => effect is Nothing,
            },
            AcmeContextMenuAction::GoToDefinition => match text {
                Some(t) => effect matches AcmeContextMenuEffect::GoToDefinition { pane_id, text: found }
                    && pane_id == menu.pane_id && found@ == t@,
                None => effect is Nothing,
            },
            AcmeContextMenuAction::Cancel => effect is Nothing,
        },
{
    match action {
        AcmeContextMenuAction::Put => match (target_pane_id, text) {
            (Some(p), Some(t)) => AcmeContextMenuEffect::Paste { pane_id: p, bytes: string_bytes(&t) },
            _ => AcmeContextMenuEffect::Nothing,
        },
        AcmeContextMenuAction::Send => match (target_pane_id, text) {
            (Some(p), Some(t)) => AcmeContextMenuEffect::Send { pane_id: p, bytes: text_with_trailing_enter(t) },
            _ => AcmeContextMenuEffect::Nothing,
        },
        AcmeContextMenuAction::Look => match (target_pane_id, text) {
            (Some(p), Some(t)) => {
                let anchor = if p == menu.pane_id {
                    menu.anchor_position
                } else {
                    release_position
                };
                AcmeContextMenuEffect::Look { pane_id: p, text: t, anchor }
            },
            _ => AcmeContextMenuEffect::Nothing,
        },
        AcmeContextMenuAction::GoToDefinition => match text {
            Some(t) => AcmeContextMenuEffect::GoToDefinition { pane_id: menu.pane_id, text: t },
            None => AcmeContextMenuEffect::Nothing,
        },
        AcmeContextMenuAction::Cancel => AcmeContextMenuEffect::Nothing,
    }
}

} // verus!
