use vstd::prelude::*;
use vstd::string::StringSliceAdditionalSpecFns;
use crate::geom::{Position, Size};
use crate::context_menu::{
    AcmeContextMenuAction, AcmeContextMenuState, ACME_CONTEXT_MENU_CONTENT_WIDTH,
    ACME_CONTEXT_MENU_HEIGHT, ACME_CONTEXT_MENU_ITEM_COUNT, ACME_CONTEXT_MENU_LABEL_WIDTH,
    menu_item, menu_item_at,
};
use crate::mouse_action::{MouseEventContext, PaneEdge};
use crate::mouse_event::{MouseEvent, MouseEventType};

verus! {

/// How a cell of an overlay (the context menu or the hover help) looks.
#[derive(Clone, Copy, Debug, PartialEq, Eq, Structural)]
pub enum OverlayStyle {
    MenuBorder,
    MenuItem { selected: bool },
    HoverHelp,
}

/// The colours of an overlay cell: background, foreground, and whether it is bold.
#[derive(Clone, Copy, Debug)]
pub struct OverlayColors {
    pub background: (u8, u8, u8),
    pub foreground: (u8, u8, u8),
    pub bold: bool,
}

/// The colours of each style: dark green on pale green for the menu, the other way round for
/// its selected entry, in bold; brown on cream for the hover help.
pub open spec fn colors_of(style: OverlayStyle) -> OverlayColors {
    match style {
        OverlayStyle::MenuBorder => OverlayColors { background: (0xe4, 0xf6, 0xd3), foreground: (0x1f, 0x5b, 0x2a), bold: false },
        OverlayStyle::MenuItem { selected } => if selected {
            OverlayColors { background: (0x1f, 0x5b, 0x2a), foreground: (0xe4, 0xf6, 0xd3), bold: true }
        } else {
            OverlayColors { background: (0xe4, 0xf6, 0xd3), foreground: (0x1f, 0x5b, 0x2a), bold: false }
        },
        OverlayStyle::HoverHelp => OverlayColors { background: (0xff, 0xf3, 0xdd), foreground: (0x8a, 0x4f, 0x1d), bold: false },
    }
}

pub fn overlay_colors(style: OverlayStyle) -> (c: OverlayColors)
    ensures
        c == colors_of(style),
{
    match style {
        OverlayStyle::MenuBorder => OverlayColors { background: (0xe4, 0xf6, 0xd3), foreground: (0x1f, 0x5b, 0x2a), bold: false },
        OverlayStyle::MenuItem { selected } => if selected {
            OverlayColors { background: (0x1f, 0x5b, 0x2a), foreground: (0xe4, 0xf6, 0xd3), bold: true }
        } else {
            OverlayColors { background: (0xe4, 0xf6, 0xd3), foreground: (0x1f, 0x5b, 0x2a), bold: false }
        },
        OverlayStyle::HoverHelp => OverlayColors { background: (0xff, 0xf3, 0xdd), foreground: (0x8a, 0x4f, 0x1d), bold: false },
    }
}

/// A character of an overlay and its look.
#[derive(Clone, Copy, Debug, PartialEq, Eq, Structural)]
pub struct OverlayCell {
    pub character: char,
    pub style: OverlayStyle,
}

/// A row of an overlay and where it is drawn.
#[derive(Clone, Debug)]
pub struct OverlayRow {
    pub x: usize,
    pub y: usize,
    pub cells: Vec<OverlayCell>,
}

/// A character in a style.
pub open spec fn cell(c: char, style: OverlayStyle) -> OverlayCell {
    OverlayCell { character: c, style }
}

/// Cells of one style.
pub open spec fn styled(chars: Seq<char>, style: OverlayStyle) -> Seq<OverlayCell> {
    Seq::new(chars.len(), |i: int| cell(chars[i], style))
}

/// The characters of ASCII text.
pub open spec fn ascii_chars(bytes: Seq<u8>) -> Seq<char> {
    bytes.map_values(|b: u8| b as char)
}

/// `n` copies of a character.
pub open spec fn repeated(c: char, n: nat) -> Seq<char> {
    Seq::new(n, |i: int| c)
}

/// `n`, or zero when negative.
pub open spec fn at_least_zero(n: int) -> nat {
    if n >= 0 { n as nat } else { 0 }
}

/// Text padded with spaces on the right to `width` characters, then framed by one space on
/// each side.
pub open spec fn padded(text: Seq<char>, width: int) -> Seq<char> {
    seq![' '] + text + repeated(' ', at_least_zero(width - text.len())) + seq![' ']
}

/// A border row: its corners and a horizontal line of `width` between them.
pub open spec fn border_chars(top: bool, width: int) -> Seq<char> {
    (if top { seq!['┌'] } else { seq!['└'] }) + repeated('─', at_least_zero(width)) + (if top { seq!['┐'] } else { seq!['┘'] })
}

/// A text row: the text padded in its style between two vertical borders.
pub open spec fn text_row(text: Seq<char>, width: int, border: OverlayStyle, style: OverlayStyle) -> Seq<OverlayCell> {
    styled(seq!['│'], border) + styled(padded(text, width), style) + styled(seq!['│'], border)
}

fn push_cells(cells: &mut Vec<OverlayCell>, c: char, n: usize, style: OverlayStyle)
    ensures
        final(cells)@ == old(cells)@ + styled(repeated(c, n as nat), style),
{
    let ghost start = cells@;
    let mut i: usize = 0;
    assert(start + styled(repeated(c, 0), style) =~= start);
    while i < n
        invariant
            i <= n,
            cells@ == start + styled(repeated(c, i as nat), style),
        decreases n - i,
    {
        let ghost before = cells@;
        cells.push(OverlayCell { character: c, style });
        assert(styled(repeated(c, (i + 1) as nat), style) =~= styled(repeated(c, i as nat), style).push(OverlayCell { character: c, style }));
        assert(cells@ =~= before.push(OverlayCell { character: c, style }));
        i += 1;
        assert(cells@ =~= start + styled(repeated(c, i as nat), style));
    }
}

fn push_ascii(cells: &mut Vec<OverlayCell>, text: &str, style: OverlayStyle)
    ensures
        final(cells)@ == old(cells)@ + styled(ascii_chars(text.spec_bytes()), style),
{
    let bytes = text.as_bytes();
    let ghost start = cells@;
    let mut i: usize = 0;
    assert(start + styled(ascii_chars(bytes@.take(0)), style) =~= start);
    while i < bytes.len()
        invariant
            i <= bytes@.len(),
            bytes@ == text.spec_bytes(),
            cells@ == start + styled(ascii_chars(bytes@.take(i as int)), style),
        decreases bytes@.len() - i,
    {
        let ghost before = cells@;
        let cell = OverlayCell { character: bytes[i] as char, style };
        cells.push(cell);
        assert(styled(ascii_chars(bytes@.take(i + 1)), style) =~= styled(ascii_chars(bytes@.take(i as int)), style).push(cell));
        assert(cells@ =~= before.push(cell));
        i += 1;
        assert(cells@ =~= start + styled(ascii_chars(bytes@.take(i as int)), style));
    }
    assert(bytes@.take(i as int) =~= bytes@);
}

fn border_row(top: bool, width: usize, style: OverlayStyle) -> (cells: Vec<OverlayCell>)
    ensures
        cells@ == styled(border_chars(top, width as int), style),
{
    let mut cells: Vec<OverlayCell> = Vec::new();
    cells.push(OverlayCell { character: if top { '┌' } else { '└' }, style });
    push_cells(&mut cells, '─', width, style);
    cells.push(OverlayCell { character: if top { '┐' } else { '┘' }, style });
    assert(cells@ =~= styled(border_chars(top, width as int), style));
    cells
}

fn text_row_cells(text: &str, width: usize, border: OverlayStyle, style: OverlayStyle) -> (cells: Vec<OverlayCell>)
    ensures
        cells@ == text_row(ascii_chars(text.spec_bytes()), width as int, border, style),
{
    let mut cells: Vec<OverlayCell> = Vec::new();
    cells.push(OverlayCell { character: '│', style: border });
    cells.push(OverlayCell { character: ' ', style });
    push_ascii(&mut cells, text, style);
    let len = text.as_bytes().len();
    let pad = if len < width { width - len } else { 0 };
    push_cells(&mut cells, ' ', pad, style);
    cells.push(OverlayCell { character: ' ', style });
    cells.push(OverlayCell { character: '│', style: border });
    assert(repeated(' ', pad as nat) =~= repeated(' ', at_least_zero(width - ascii_chars(text.spec_bytes()).len())));
    let ghost t = ascii_chars(text.spec_bytes());
    assert(styled(padded(t, width as int), style) =~= seq![cell(' ', style)] + styled(t, style)
        + styled(repeated(' ', pad as nat), style) + seq![cell(' ', style)]);
    assert(cells@ =~= text_row(t, width as int, border, style));
    cells
}

// ---------------------------------------------------------------------------------------------
// The context menu
// ---------------------------------------------------------------------------------------------

/// The text of an entry of the context menu.
pub open spec fn menu_text(action: AcmeContextMenuAction) -> &'static str {
    match action {
        AcmeContextMenuAction::Put => "put",
        AcmeContextMenuAction::Send => "send",
        AcmeContextMenuAction::Look => "look",
        AcmeContextMenuAction::GoToDefinition => "definition",
        AcmeContextMenuAction::Cancel => "cancel",
    }
}

pub fn acme_context_menu_label(action: AcmeContextMenuAction) -> (text: &'static str)
    ensures
        text == menu_text(action),
{
    match action {
        AcmeContextMenuAction::Put => "put",
        AcmeContextMenuAction::Send => "send",
        AcmeContextMenuAction::Look => "look",
        AcmeContextMenuAction::GoToDefinition => "definition",
        AcmeContextMenuAction::Cancel => "cancel",
    }
}

/// The look of the context menu's border.
fn acme_context_menu_border_style() -> (style: OverlayStyle)
    ensures
        style == OverlayStyle::MenuBorder,
{
    OverlayStyle::MenuBorder
}

/// The look of an entry of the context menu, selected or not.
fn acme_context_menu_item_style(selected: bool) -> (style: OverlayStyle)
    ensures
        style == (OverlayStyle::MenuItem { selected }),
{
    OverlayStyle::MenuItem { selected }
}

/// A border row of the context menu, at its top or bottom.
fn acme_context_menu_border_row(top: bool) -> (cells: Vec<OverlayCell>)
    ensures
        cells@ == styled(border_chars(top, ACME_CONTEXT_MENU_CONTENT_WIDTH as int), OverlayStyle::MenuBorder),
{
    border_row(top, ACME_CONTEXT_MENU_CONTENT_WIDTH, acme_context_menu_border_style())
}

/// The row of an entry of the context menu: its label padded to the label width, between two
/// borders.
fn acme_context_menu_item_row(label: &str, selected: bool) -> (cells: Vec<OverlayCell>)
    ensures
        cells@ == text_row(
            ascii_chars(label.spec_bytes()),
            ACME_CONTEXT_MENU_LABEL_WIDTH as int,
            OverlayStyle::MenuBorder,
            OverlayStyle::MenuItem { selected },
        ),
{
    text_row_cells(label, ACME_CONTEXT_MENU_LABEL_WIDTH, acme_context_menu_border_style(), acme_context_menu_item_style(selected))
}

/// The rows of the context menu: a top border, one row per entry (the selected one in its own
/// style), and a bottom border, from the menu's top-left corner down.
pub open spec fn menu_rows(menu: AcmeContextMenuState) -> Seq<(usize, usize, Seq<OverlayCell>)> {
    seq![(menu.x, menu.y, styled(border_chars(true, ACME_CONTEXT_MENU_CONTENT_WIDTH as int), OverlayStyle::MenuBorder))]
        + Seq::new(ACME_CONTEXT_MENU_ITEM_COUNT as nat, |i: int| (
            menu.x,
            (menu.y + i + 1) as usize,
            text_row(
                ascii_chars(menu_text(menu_item(i)).spec_bytes()),
                ACME_CONTEXT_MENU_LABEL_WIDTH as int,
                OverlayStyle::MenuBorder,
                OverlayStyle::MenuItem { selected: menu.selected_action == Some(menu_item(i)) },
            ),
        ))
        + seq![(menu.x, (menu.y + ACME_CONTEXT_MENU_HEIGHT - 1) as usize, styled(border_chars(false, ACME_CONTEXT_MENU_CONTENT_WIDTH as int), OverlayStyle::MenuBorder))]
}

/// The rows as values.
pub open spec fn row_values(rows: Seq<OverlayRow>) -> Seq<(usize, usize, Seq<OverlayCell>)> {
    Seq::new(rows.len(), |i: int| (rows[i].x, rows[i].y, rows[i].cells@))
}

pub fn acme_context_menu_character_chunks(menu: AcmeContextMenuState) -> (rows: Vec<OverlayRow>)
    requires
        menu.y + ACME_CONTEXT_MENU_HEIGHT <= usize::MAX,
    ensures
        row_values(rows@) == menu_rows(menu),
{
    let mut rows: Vec<OverlayRow> = Vec::new();
    rows.push(OverlayRow {
        x: menu.x,
        y: menu.y,
        cells: acme_context_menu_border_row(true),
    });
    assert(row_values(rows@) =~= menu_rows(menu).take(1));
    let mut index: usize = 0;
    while index < ACME_CONTEXT_MENU_ITEM_COUNT
        invariant
            index <= ACME_CONTEXT_MENU_ITEM_COUNT,
            menu.y + ACME_CONTEXT_MENU_HEIGHT <= usize::MAX,
            row_values(rows@) == menu_rows(menu).take(index + 1),
        decreases ACME_CONTEXT_MENU_ITEM_COUNT - index,
    {
        let action = menu_item_at(index);
        let selected = match menu.selected_action {
            Some(a) => a == action,
            None => false,
        };
        let label = acme_context_menu_label(action);
        let cells = acme_context_menu_item_row(label, selected);
        let ghost prev = row_values(rows@);
        let ghost entry = (menu.x, (menu.y + index + 1) as usize, cells@);
        rows.push(OverlayRow { x: menu.x, y: menu.y + index + 1, cells });
        assert(row_values(rows@) =~= prev.push(entry));
        assert(menu_rows(menu)[index + 1] == entry);
        assert(menu_rows(menu).take(index + 2) =~= menu_rows(menu).take(index + 1).push(entry));
        index += 1;
    }
    let last = acme_context_menu_border_row(false);
    let ghost prev = row_values(rows@);
    let ghost entry = (menu.x, (menu.y + ACME_CONTEXT_MENU_HEIGHT - 1) as usize, last@);
    rows.push(OverlayRow { x: menu.x, y: menu.y + ACME_CONTEXT_MENU_HEIGHT - 1, cells: last });
    assert(row_values(rows@) =~= prev.push(entry));
    assert(menu_rows(menu) =~= menu_rows(menu).take(6).push(entry));
    rows
}

// ---------------------------------------------------------------------------------------------
// The hover help
// ---------------------------------------------------------------------------------------------

/// How long the mouse must rest on something before its help shows.
pub const ACME_HOVER_HELP_DELAY_MS: u64 = 1400;

/// What the hover help explains.
#[derive(Clone, Copy, Debug, PartialEq, Eq, Structural)]
pub enum AcmeHoverHelpTarget {
    PaneFrame { edge: Option<PaneEdge> },
    AcmeTitle,
    AcmeTitleButton,
    AcmeTabSquare,
    AcmeTab,
}

/// Hover help waiting to show: what it explains, where the mouse rests, and when it came to
/// rest, in milliseconds of a clock of the caller's choice.
#[derive(Clone, Copy, Debug, PartialEq, Eq, Structural)]
pub struct AcmeHoverHelpState {
    pub target: AcmeHoverHelpTarget,
    pub position: Position,
    pub first_seen_ms: u64,
}

impl AcmeHoverHelpState {
    pub fn new(target: AcmeHoverHelpTarget, position: Position, now_ms: u64) -> (h: Self)
        ensures
            h == (AcmeHoverHelpState { target, position, first_seen_ms: now_ms }),
    {
        AcmeHoverHelpState { target, position, first_seen_ms: now_ms }
    }
}

/// The help shows once the mouse has rested for the delay.
pub fn acme_hover_help_is_visible(help: AcmeHoverHelpState, now_ms: u64) -> (r: bool)
    ensures
        r == (now_ms >= help.first_seen_ms && now_ms - help.first_seen_ms >= ACME_HOVER_HELP_DELAY_MS),
{
    now_ms.saturating_sub(help.first_seen_ms) >= ACME_HOVER_HELP_DELAY_MS
}

/// What the mouse rests on, as far as help goes: a title button, then a title, then a pane
/// frame (with the edge under the mouse, if any).
pub open spec fn hover_help_target(ctx: MouseEventContext) -> Option<AcmeHoverHelpTarget> {
    if ctx.acme_title_button_pane_id is Some {
        Some(AcmeHoverHelpTarget::AcmeTitleButton)
    } else if ctx.acme_title_pane_id is Some {
        Some(AcmeHoverHelpTarget::AcmeTitle)
    } else if ctx.clicked_pane is Some && ctx.clicked_pane->0.on_frame {
        Some(AcmeHoverHelpTarget::PaneFrame { edge: ctx.clicked_pane->0.edge })
    } else {
        None
    }
}

pub fn acme_hover_help_target(ctx: &MouseEventContext) -> (r: Option<AcmeHoverHelpTarget>)
    ensures
        r == hover_help_target(*ctx),
{
    if ctx.acme_title_button_pane_id.is_some() {
        return Some(AcmeHoverHelpTarget::AcmeTitleButton);
    }
    if ctx.acme_title_pane_id.is_some() {
        return Some(AcmeHoverHelpTarget::AcmeTitle);
    }
    if let Some(details) = ctx.clicked_pane {
        if details.on_frame {
            return Some(AcmeHoverHelpTarget::PaneFrame { edge: details.edge });
        }
    }
    None
}

/// The lines of help for each target.
pub open spec fn help_lines(target: AcmeHoverHelpTarget) -> Seq<&'static str> {
    match target {
        AcmeHoverHelpTarget::PaneFrame { edge } => if edge is Some {
            seq!["left drag: resize", "ctrl-scroll: resize", "right: no-op"]
        } else {
            seq!["left drag: move", "right: no-op"]
        },
        AcmeHoverHelpTarget::AcmeTitle => seq![
            "ctrl-left: equalize rows",
            "alt-left/right: swap column",
            "right: no-op",
        ],
        AcmeHoverHelpTarget::AcmeTitleButton => seq![
            "left drag: move",
            "ctrl-left: new pane",
            "ctrl-right: new column",
            "middle: close",
        ],
        AcmeHoverHelpTarget::AcmeTabSquare => seq!["left: switch/drag", "ctrl-right: new tab", "middle: close"],
        AcmeHoverHelpTarget::AcmeTab => seq!["left: switch", "drag square: reorder"],
    }
}

pub fn acme_hover_help_lines(target: AcmeHoverHelpTarget) -> (lines: Vec<&'static str>)
    ensures
        lines@ == help_lines(target),
{
    let mut lines: Vec<&'static str> = Vec::new();
    match target {
        AcmeHoverHelpTarget::PaneFrame { edge } => {
            if edge.is_some() {
                lines.push("left drag: resize");
                lines.push("ctrl-scroll: resize");
                lines.push("right: no-op");
            } else {
                lines.push("left drag: move");
                lines.push("right: no-op");
            }
        },
        AcmeHoverHelpTarget::AcmeTitle => {
            lines.push("ctrl-left: equalize rows");
            lines.push("alt-left/right: swap column");
            lines.push("right: no-op");
        },
        AcmeHoverHelpTarget::AcmeTitleButton => {
            lines.push("left drag: move");
            lines.push("ctrl-left: new pane");
            lines.push("ctrl-right: new column");
            lines.push("middle: close");
        },
        AcmeHoverHelpTarget::AcmeTabSquare => {
            lines.push("left: switch/drag");
            lines.push("ctrl-right: new tab");
            lines.push("middle: close");
        },
        AcmeHoverHelpTarget::AcmeTab => {
            lines.push("left: switch");
            lines.push("drag square: reorder");
        },
    }
    assert(lines@ =~= help_lines(target));
    lines
}

/// `a + b`, at most the largest `usize`.
pub open spec fn sat_add(a: int, b: int) -> int {
    if a + b <= usize::MAX { a + b } else { usize::MAX as int }
}

/// `a - b`, at least zero.
pub open spec fn sat_sub(a: int, b: int) -> int {
    if a >= b { a - b } else { 0 }
}

/// Where a help box of the given size goes: right of and below the mouse when it fits there,
/// else left of or above it, and always inside the display when the display can hold it.
pub open spec fn help_position(position: Position, size: Size, width: int, height: int) -> (int, int) {
    let right = sat_add(position.column as int, 1);
    let x = if sat_add(right, width) <= size.cols { right } else { sat_sub(position.column as int, width) };
    let line = if position.line >= 0 { position.line as int } else { 0 };
    let below = sat_add(line, 1);
    let y = if sat_add(below, height) <= size.rows { below } else { sat_sub(line, height) };
    let max_x = sat_sub(size.cols as int, width);
    let max_y = sat_sub(size.rows as int, height);
    (if x <= max_x { x } else { max_x }, if y <= max_y { y } else { max_y })
}

pub fn acme_hover_help_position(position: Position, display_size: Size, width: usize, height: usize) -> (r: (usize, usize))
    ensures
        (r.0 as int, r.1 as int) == help_position(position, display_size, width as int, height as int),
{
    let right_of_cursor = position.column.saturating_add(1);
    let x = if right_of_cursor.saturating_add(width) <= display_size.cols {
        right_of_cursor
    } else {
        position.column.saturating_sub(width)
    };
    let line: usize = if position.line >= 0 { position.line as usize } else { 0 };
    let below_cursor = line.saturating_add(1);
    let y = if below_cursor.saturating_add(height) <= display_size.rows {
        below_cursor
    } else {
        line.saturating_sub(height)
    };
    let max_x = display_size.cols.saturating_sub(width);
    let max_y = display_size.rows.saturating_sub(height);
    (if x <= max_x { x } else { max_x }, if y <= max_y { y } else { max_y })
}

/// Whether a position is on the outermost rows or columns of the display (or above it).
pub open spec fn on_display_edge(position: Position, size: Size) -> bool {
    position.line < 0 || size.cols == 0 || size.rows == 0 || position.column == 0
        || position.column >= sat_sub(size.cols as int, 1) || position.line == 0
        || position.line >= sat_sub(size.rows as int, 1)
}

pub fn position_is_on_display_edge(position: Position, display_size: Size) -> (r: bool)
    ensures
        r == on_display_edge(position, display_size),
{
    if position.line < 0 {
        return true;
    }
    let line = position.line as usize;
    display_size.cols == 0 || display_size.rows == 0 || position.column == 0
        || position.column >= display_size.cols.saturating_sub(1) || line == 0
        || line >= display_size.rows.saturating_sub(1)
}

/// The look of the hover help.
fn acme_hover_help_style() -> (style: OverlayStyle)
    ensures
        style == OverlayStyle::HoverHelp,
{
    OverlayStyle::HoverHelp
}

/// The look of the hover help's border.
fn acme_hover_help_border_style() -> (style: OverlayStyle)
    ensures
        style == OverlayStyle::HoverHelp,
{
    acme_hover_help_style()
}

/// The look of the hover help's text.
fn acme_hover_help_text_style() -> (style: OverlayStyle)
    ensures
        style == OverlayStyle::HoverHelp,
{
    acme_hover_help_style()
}

/// A border row of the hover help, at its top or bottom, around `content_width` cells.
fn acme_hover_help_border_row(top: bool, content_width: usize) -> (cells: Vec<OverlayCell>)
    ensures
        cells@ == styled(border_chars(top, content_width as int), OverlayStyle::HoverHelp),
{
    border_row(top, content_width, acme_hover_help_border_style())
}

/// A line of the hover help, padded to fill `content_width` cells with its margins, between
/// two borders.
fn acme_hover_help_text_row(line: &str, content_width: usize) -> (cells: Vec<OverlayCell>)
    ensures
        cells@ == text_row(
            ascii_chars(line.spec_bytes()),
            sat_sub(content_width as int, 2),
            OverlayStyle::HoverHelp,
            OverlayStyle::HoverHelp,
        ),
{
    text_row_cells(line, content_width.saturating_sub(2), acme_hover_help_border_style(), acme_hover_help_text_style())
}

/// Hover help (re)scheduled for a target at the mouse at time `now_ms`: the wait starts again
/// from now, and the result says whether help was showing before, in which case the tab must
/// render to take it down.
pub fn schedule_acme_hover_help(
    existing: Option<AcmeHoverHelpState>,
    target: AcmeHoverHelpTarget,
    position: Position,
    now_ms: u64,
) -> (r: (AcmeHoverHelpState, bool))
    ensures
        r.0 == (AcmeHoverHelpState { target, position, first_seen_ms: now_ms }),
        r.1 == match existing {
            Some(help) => now_ms >= help.first_seen_ms && now_ms - help.first_seen_ms >= ACME_HOVER_HELP_DELAY_MS,
            None => false,
        },
{
    let was_visible = match existing {
        Some(help) => acme_hover_help_is_visible(help, now_ms),
        None => false,
    };
    (AcmeHoverHelpState::new(target, position, now_ms), was_visible)
}

/// What a mouse event does to the hover help: it hides it, or it (re)starts the wait before
/// showing help for a target at the mouse.
#[derive(Clone, Copy, Debug, PartialEq, Eq, Structural)]
pub enum AcmeHoverHelpUpdate {
    Hide,
    Schedule(AcmeHoverHelpTarget),
}

/// Motion with no button or wheel.
pub open spec fn is_buttonless_motion(event: MouseEvent) -> bool {
    event.event_type == MouseEventType::Motion && !event.left && !event.right && !event.middle
        && !event.wheel_up && !event.wheel_down && !event.wheel_left && !event.wheel_right
}

/// Help follows buttonless motion over something that has help, away from the edges of the
/// display and from the title line (when titles are drawn); any other event hides it.
pub open spec fn hover_help_update(
    event: MouseEvent,
    ctx: MouseEventContext,
    display_size: Size,
    draws_titles: bool,
) -> AcmeHoverHelpUpdate {
    if is_buttonless_motion(event) && !(on_display_edge(event.position, display_size) || (
    draws_titles && event.position.line == 0)) {
        match hover_help_target(ctx) {
            Some(target) => AcmeHoverHelpUpdate::Schedule(target),
            None => AcmeHoverHelpUpdate::Hide,
        }
    } else {
        AcmeHoverHelpUpdate::Hide
    }
}

/// What a mouse event does to the hover help on a display of the given size.
pub fn update_acme_hover_help(
    event: &MouseEvent,
    ctx: &MouseEventContext,
    display_size: Size,
    draws_titles: bool,
) -> (update: AcmeHoverHelpUpdate)
    ensures
        update == hover_help_update(*event, *ctx, display_size, draws_titles),
{
    let is_buttonless_motion = event.event_type == MouseEventType::Motion && !event.left
        && !event.right && !event.middle && !event.wheel_up && !event.wheel_down
        && !event.wheel_left && !event.wheel_right;
    if is_buttonless_motion && (position_is_on_display_edge(event.position, display_size) || (
    draws_titles && event.position.line == 0)) {
        return AcmeHoverHelpUpdate::Hide;
    }
    if is_buttonless_motion {
        match acme_hover_help_target(ctx) {
            Some(target) => AcmeHoverHelpUpdate::Schedule(target),
            None => AcmeHoverHelpUpdate::Hide,
        }
    } else {
        AcmeHoverHelpUpdate::Hide
    }
}

/// The length in bytes of the longest line, looking at the first `k`.
pub open spec fn longest(lines: Seq<&'static str>, k: int) -> int
    decreases k,
{
    if k <= 0 {
        0
    } else {
        let rest = longest(lines, k - 1);
        let len = lines[k - 1].spec_bytes().len() as int;
        if len > rest { len } else { rest }
    }
}

/// The rows of the help box for `lines` at `(x, y)`: a top border, one row per line padded to
/// the longest, and a bottom border.
pub open spec fn help_rows(lines: Seq<&'static str>, x: int, y: int) -> Seq<(usize, usize, Seq<OverlayCell>)> {
    let content_width = longest(lines, lines.len() as int) + 2;
    seq![(x as usize, y as usize, styled(border_chars(true, content_width), OverlayStyle::HoverHelp))]
        + Seq::new(lines.len(), |i: int| (
            x as usize,
            (y + i + 1) as usize,
            text_row(ascii_chars(lines[i].spec_bytes()), content_width - 2, OverlayStyle::HoverHelp, OverlayStyle::HoverHelp),
        ))
        + seq![(x as usize, (y + lines.len() + 1) as usize, styled(border_chars(false, content_width), OverlayStyle::HoverHelp))]
}

/// The rows of the hover help on a display of the given size, placed by `help_position`.
pub open spec fn hover_help_rows(help: AcmeHoverHelpState, size: Size) -> Seq<(usize, usize, Seq<OverlayCell>)> {
    let lines = help_lines(help.target);
    let content_width = longest(lines, lines.len() as int) + 2;
    let (x, y) = help_position(help.position, size, content_width + 2, (lines.len() + 2) as int);
    help_rows(lines, x, y)
}

/// Every line of help is short ASCII text.
proof fn lemma_help_lines_short(target: AcmeHoverHelpTarget)
    ensures
        forall|i: int| 0 <= i < help_lines(target).len() ==> #[trigger] help_lines(target)[i].spec_bytes().len() <= 64,
{
    reveal_strlit("left drag: resize");
    assert(vstd::string::is_ascii("left drag: resize"));
    vstd::string::is_ascii_spec_bytes("left drag: resize");
    reveal_strlit("ctrl-scroll: resize");
    assert(vstd::string::is_ascii("ctrl-scroll: resize"));
    vstd::string::is_ascii_spec_bytes("ctrl-scroll: resize");
    reveal_strlit("right: no-op");
    assert(vstd::string::is_ascii("right: no-op"));
    vstd::string::is_ascii_spec_bytes("right: no-op");
    reveal_strlit("left drag: move");
    assert(vstd::string::is_ascii("left drag: move"));
    vstd::string::is_ascii_spec_bytes("left drag: move");
    reveal_strlit("ctrl-left: equalize rows");
    assert(vstd::string::is_ascii("ctrl-left: equalize rows"));
    vstd::string::is_ascii_spec_bytes("ctrl-left: equalize rows");
    reveal_strlit("alt-left/right: swap column");
    assert(vstd::string::is_ascii("alt-left/right: swap column"));
    vstd::string::is_ascii_spec_bytes("alt-left/right: swap column");
    reveal_strlit("ctrl-left: new pane");
    assert(vstd::string::is_ascii("ctrl-left: new pane"));
    vstd::string::is_ascii_spec_bytes("ctrl-left: new pane");
    reveal_strlit("ctrl-right: new column");
    assert(vstd::string::is_ascii("ctrl-right: new column"));
    vstd::string::is_ascii_spec_bytes("ctrl-right: new column");
    reveal_strlit("middle: close");
    assert(vstd::string::is_ascii("middle: close"));
    vstd::string::is_ascii_spec_bytes("middle: close");
    reveal_strlit("left: switch/drag");
    assert(vstd::string::is_ascii("left: switch/drag"));
    vstd::string::is_ascii_spec_bytes("left: switch/drag");
    reveal_strlit("ctrl-right: new tab");
    assert(vstd::string::is_ascii("ctrl-right: new tab"));
    vstd::string::is_ascii_spec_bytes("ctrl-right: new tab");
    reveal_strlit("left: switch");
    assert(vstd::string::is_ascii("left: switch"));
    vstd::string::is_ascii_spec_bytes("left: switch");
    reveal_strlit("drag square: reorder");
    assert(vstd::string::is_ascii("drag square: reorder"));
    vstd::string::is_ascii_spec_bytes("drag square: reorder");
}

proof fn lemma_longest(lines: Seq<&'static str>, k: int)
    requires
        0 <= k <= lines.len(),
        forall|i: int| 0 <= i < lines.len() ==> lines[i].spec_bytes().len() <= 64,
    ensures
        0 <= longest(lines, k) <= 64,
        forall|i: int| 0 <= i < k ==> lines[i].spec_bytes().len() <= longest(lines, k),
    decreases k,
{
    if k > 0 {
        lemma_longest(lines, k - 1);
    }
}

pub fn acme_hover_help_character_chunks(help: AcmeHoverHelpState, display_size: Size) -> (rows: Vec<OverlayRow>)
    ensures
        row_values(rows@) == hover_help_rows(help, display_size),
{
    let lines = acme_hover_help_lines(help.target);
    let ghost ls = lines@;
    let mut longest_len: usize = 0;
    let mut i: usize = 0;
    proof {
        lemma_help_lines_short(help.target);
        lemma_longest(ls, ls.len() as int);
    }
    while i < lines.len()
        invariant
            ls == lines@,
            i <= ls.len(),
            longest_len == longest(ls, i as int),
            forall|k: int| 0 <= k < ls.len() ==> #[trigger] ls[k].spec_bytes().len() <= 64,
        decreases ls.len() - i,
    {
        proof {
            lemma_longest(ls, i + 1);
        }
        let len = lines[i].as_bytes().len();
        if len > longest_len {
            longest_len = len;
        }
        i += 1;
    }
    let content_width = longest_len + 2;
    let width = content_width + 2;
    let height = lines.len() + 2;
    let (x, y) = acme_hover_help_position(help.position, display_size, width, height);
    let ghost all = help_rows(ls, x as int, y as int);
    assert(ls.len() <= 4);
    assert(y + height <= usize::MAX);
    let mut rows: Vec<OverlayRow> = Vec::new();
    rows.push(OverlayRow { x, y, cells: acme_hover_help_border_row(true, content_width) });
    assert(row_values(rows@) =~= all.take(1));
    let mut index: usize = 0;
    while index < lines.len()
        invariant
            ls == lines@,
            index <= ls.len(),
            ls.len() <= 4,
            content_width == longest(ls, ls.len() as int) + 2,
            height == ls.len() + 2,
            y + height <= usize::MAX,
            all == help_rows(ls, x as int, y as int),
            row_values(rows@) == all.take(index + 1),
        decreases ls.len() - index,
    {
        let cells = acme_hover_help_text_row(lines[index], content_width);
        let ghost prev = row_values(rows@);
        let ghost entry = (x, (y + index + 1) as usize, cells@);
        rows.push(OverlayRow { x, y: y + index + 1, cells });
        assert(row_values(rows@) =~= prev.push(entry));
        assert(all[index + 1] == entry);
        assert(all.take(index + 2) =~= all.take(index + 1).push(entry));
        index += 1;
    }
    let last = acme_hover_help_border_row(false, content_width);
    let ghost prev = row_values(rows@);
    let ghost entry = (x, (y + height - 1) as usize, last@);
    rows.push(OverlayRow { x, y: y + height - 1, cells: last });
    assert(row_values(rows@) =~= prev.push(entry));
    assert(all =~= all.take(index + 1).push(entry));
    rows
}

} // verus!
